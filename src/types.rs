use vstd::prelude::*;
use crate::names::{Symbol, TypeId};
use crate::core_ir::{is_non_expansive, Expr, Row};

verus! {

/// A named type constructor with its arity; equality is by id.
#[derive(Copy, Clone, Debug, PartialEq, Eq, Hash, Structural)]
pub struct Tycon {
    pub name: Symbol,
    pub arity: u8,
    pub id: TypeId,
}

/// A datatype value constructor: `tag` is unique within its type, `arity`
/// is 0 (nullary) or 1 (carries a payload), `type_arity` is the number of
/// type arguments of its type.
#[derive(Copy, Clone, Debug, PartialEq, Eq, Hash, Structural)]
pub struct Constructor {
    pub name: Symbol,
    pub type_id: TypeId,
    pub tag: u16,
    pub arity: u8,
    pub type_arity: u8,
}

/// A type: a type variable (by id), a constructor applied to arguments, a
/// closed record, or an open record whose remaining fields are the tail
/// variable.
#[derive(Debug)]
pub enum Type {
    Var(usize),
    Con(Tycon, Vec<Type>),
    Record(Vec<Row<Type>>),
    Flex(Vec<Row<Type>>, usize),
}

/// A type quantified over the type variables `vars`.
#[derive(Debug)]
pub struct Scheme {
    pub vars: Vec<usize>,
    pub ty: Type,
}

/// Why two types do not unify.
#[derive(Debug, PartialEq, Eq)]
pub enum UnifyError {
    /// The two types have different shapes or constructors.
    Mismatch,
    /// Linking the variable would make a type contain itself.
    Occurs(usize),
    /// Two rows have different numbers of fields.
    RowArity,
    /// A record label is present in one record type only.
    MissingLabel(Symbol),
    /// A type constructor applied to the wrong number of arguments: the
    /// constructor, the arity it expects, the number it got.
    TyconArity(Tycon, u8, usize),
}

/// Whether every type variable of `t` is in `vars` and every type
/// constructor it applies has its id in `tycons`.
pub open spec fn scoped(t: Type, vars: Seq<usize>, tycons: Seq<u32>) -> bool
    decreases t,
{
    match t {
        Type::Var(x) => vars.contains(x),
        Type::Con(tc, args) => tycons.contains(tc.id.0) && forall|i: int|
            0 <= i < args.len() ==> scoped(#[trigger] args[i], vars, tycons),
        Type::Record(rows) => forall|i: int|
            0 <= i < rows.len() ==> scoped(#[trigger] rows[i].data, vars, tycons),
        Type::Flex(rows, tail) => vars.contains(tail) && forall|i: int|
            0 <= i < rows.len() ==> scoped(#[trigger] rows[i].data, vars, tycons),
    }
}

fn contains_id(xs: &Vec<u32>, x: u32) -> (r: bool)
    ensures
        r == xs@.contains(x),
{
    let mut i: usize = 0;
    while i < xs.len()
        invariant
            0 <= i <= xs.len(),
            forall|j: int| 0 <= j < i ==> xs@[j] != x,
        decreases xs.len() - i,
    {
        if xs[i] == x {
            return true;
        }
        i = i + 1;
    }
    false
}

fn rows_scoped(rows: &Vec<Row<Type>>, vars: &Vec<usize>, tycons: &Vec<u32>) -> (r: bool)
    ensures
        r == forall|i: int| 0 <= i < rows.len() ==> scoped(#[trigger] rows[i].data, vars@, tycons@),
    decreases rows,
{
    let mut i: usize = 0;
    while i < rows.len()
        invariant
            0 <= i <= rows.len(),
            forall|j: int| 0 <= j < i ==> scoped(#[trigger] rows[j].data, vars@, tycons@),
        decreases rows.len() - i,
    {
        proof {
            assert(decreases_to!(*rows => rows[i as int]));
            assert(decreases_to!(rows[i as int] => rows[i as int].data));
        }
        if !rows[i].data.is_scoped(vars, tycons) {
            assert(!scoped(rows[i as int].data, vars@, tycons@));
            return false;
        }
        i = i + 1;
    }
    true
}

/// Whether the type variable `v` occurs in `t`.
pub open spec fn occurs(v: usize, t: Type) -> bool
    decreases t,
{
    match t {
        Type::Var(x) => x == v,
        Type::Con(_, args) => exists|i: int| 0 <= i < args.len() && occurs(v, #[trigger] args[i]),
        Type::Record(rows) => exists|i: int|
            0 <= i < rows.len() && occurs(v, #[trigger] rows[i].data),
        Type::Flex(rows, tail) => tail == v || exists|i: int|
            0 <= i < rows.len() && occurs(v, #[trigger] rows[i].data),
    }
}

fn contains(xs: &Vec<usize>, x: usize) -> (r: bool)
    ensures
        r == xs@.contains(x),
{
    let mut i: usize = 0;
    while i < xs.len()
        invariant
            0 <= i <= xs.len(),
            forall|j: int| 0 <= j < i ==> xs@[j] != x,
        decreases xs.len() - i,
    {
        if xs[i] == x {
            return true;
        }
        i = i + 1;
    }
    false
}

proof fn lemma_push_contains(s: Seq<usize>, x: usize, v: usize)
    ensures
        s.push(x).contains(v) <==> (s.contains(v) || v == x),
{
    if v == x {
        assert(s.push(x)[s.len() as int] == x);
    }
    if s.contains(v) {
        let k = choose|k: int| 0 <= k < s.len() && s[k] == v;
        assert(s.push(x)[k] == v);
    }
    if s.push(x).contains(v) {
        let k = choose|k: int| 0 <= k < s.push(x).len() && s.push(x)[k] == v;
        if k < s.len() {
            assert(s[k] == v);
        }
    }
}

proof fn lemma_push_no_duplicates(s: Seq<usize>, x: usize)
    requires
        s.no_duplicates(),
        !s.contains(x),
    ensures
        s.push(x).no_duplicates(),
{
    assert forall|i: int, j: int|
        0 <= i < s.push(x).len() && 0 <= j < s.push(x).len() && i != j implies s.push(x)[i] != s.push(x)[j] by {
        if i == s.len() as int {
            assert(s[j] == s.push(x)[j]);
        } else if j == s.len() as int {
            assert(s[i] == s.push(x)[i]);
        }
    }
}

fn add_var(acc: &mut Vec<usize>, x: usize)
    requires
        old(acc)@.no_duplicates(),
    ensures
        final(acc)@.no_duplicates(),
        forall|v: usize| final(acc)@.contains(v) <==> (old(acc)@.contains(v) || v == x),
{
    if !contains(acc, x) {
        let ghost a0 = acc@;
        acc.push(x);
        proof {
            assert forall|v: usize| #[trigger] acc@.contains(v) <==> (a0.contains(v) || v == x) by {
                lemma_push_contains(a0, x, v);
            }
        }
    }
}

fn add_rows_vars(rows: &Vec<Row<Type>>, acc: &mut Vec<usize>)
    requires
        old(acc)@.no_duplicates(),
    ensures
        final(acc)@.no_duplicates(),
        forall|v: usize|
            final(acc)@.contains(v) <==> (old(acc)@.contains(v) || exists|i: int|
                0 <= i < rows.len() && occurs(v, #[trigger] rows[i].data)),
    decreases rows,
{
    let ghost acc0 = acc@;
    let mut i: usize = 0;
    while i < rows.len()
        invariant
            0 <= i <= rows.len(),
            acc@.no_duplicates(),
            forall|v: usize|
                #[trigger] acc@.contains(v) <==> (acc0.contains(v) || exists|j: int|
                    0 <= j < i && occurs(v, #[trigger] rows[j].data)),
        decreases rows.len() - i,
    {
        proof {
            assert(decreases_to!(*rows => rows[i as int]));
            assert(decreases_to!(rows[i as int] => rows[i as int].data));
        }
        let ghost before = acc@;
        rows[i].data.add_free_vars(acc);
        assert forall|v: usize|
            #[trigger] acc@.contains(v) <==> (acc0.contains(v) || exists|j: int|
                0 <= j < i + 1 && occurs(v, #[trigger] rows[j].data)) by {
            if occurs(v, rows[i as int].data) {
                assert(0 <= i < i + 1);
            }
            if exists|j: int| 0 <= j < i + 1 && occurs(v, #[trigger] rows[j].data) {
                let j = choose|j: int| 0 <= j < i + 1 && occurs(v, #[trigger] rows[j].data);
                if j < i {
                    assert(before.contains(v));
                }
            }
        }
        i = i + 1;
    }
}

impl Type {
    /// Adds to `acc` the type variables of `self` that it lacks.
    pub fn add_free_vars(&self, acc: &mut Vec<usize>)
        requires
            old(acc)@.no_duplicates(),
        ensures
            final(acc)@.no_duplicates(),
            forall|v: usize| final(acc)@.contains(v) <==> (old(acc)@.contains(v) || occurs(v, *self)),
        decreases *self, 1nat,
    {
        match self {
            Type::Var(x) => {
                add_var(acc, *x);
                assert forall|v: usize| occurs(v, *self) <==> v == *x by {}
            },
            Type::Con(_, args) => {
                let ghost acc0 = acc@;
                let mut i: usize = 0;
                while i < args.len()
                    invariant
                        0 <= i <= args.len(),
                        *self == Type::Con(self->Con_0, *args),
                        acc@.no_duplicates(),
                        forall|v: usize|
                            #[trigger] acc@.contains(v) <==> (acc0.contains(v) || exists|j: int|
                                0 <= j < i && occurs(v, #[trigger] args[j])),
                    decreases args.len() - i,
                {
                    proof {
                        assert(decreases_to!(*self => self->Con_1));
                        assert(decreases_to!(*args => args[i as int]));
                    }
                    let ghost before = acc@;
                    args[i].add_free_vars(acc);
                    assert forall|v: usize|
                        #[trigger] acc@.contains(v) <==> (acc0.contains(v) || exists|j: int|
                            0 <= j < i + 1 && occurs(v, #[trigger] args[j])) by {
                        if occurs(v, args[i as int]) {
                            assert(0 <= i < i + 1);
                        }
                        if exists|j: int| 0 <= j < i + 1 && occurs(v, #[trigger] args[j]) {
                            let j = choose|j: int| 0 <= j < i + 1 && occurs(v, #[trigger] args[j]);
                            if j < i {
                                assert(before.contains(v));
                            }
                        }
                    }
                    i = i + 1;
                }
            },
            Type::Record(rows) => {
                proof {
                    assert(decreases_to!(*self => self->Record_0));
                }
                add_rows_vars(rows, acc);
            },
            Type::Flex(rows, tail) => {
                proof {
                    assert(decreases_to!(*self => self->Flex_0));
                }
                add_rows_vars(rows, acc);
                add_var(acc, *tail);
            },
        }
    }

    /// Whether `self` uses only the type variables `vars` and the type
    /// constructors whose ids are in `tycons`.
    pub fn is_scoped(&self, vars: &Vec<usize>, tycons: &Vec<u32>) -> (r: bool)
        ensures
            r == scoped(*self, vars@, tycons@),
        decreases *self, 1nat,
    {
        match self {
            Type::Var(x) => contains(vars, *x),
            Type::Con(tc, args) => {
                if !contains_id(tycons, tc.id.0) {
                    return false;
                }
                let mut i: usize = 0;
                while i < args.len()
                    invariant
                        0 <= i <= args.len(),
                        *self == Type::Con(self->Con_0, *args),
                        forall|j: int| 0 <= j < i ==> scoped(#[trigger] args[j], vars@, tycons@),
                    decreases args.len() - i,
                {
                    proof {
                        assert(decreases_to!(*self => self->Con_1));
                        assert(decreases_to!(*args => args[i as int]));
                    }
                    if !args[i].is_scoped(vars, tycons) {
                        assert(!scoped(args[i as int], vars@, tycons@));
                        return false;
                    }
                    i = i + 1;
                }
                true
            },
            Type::Record(rows) => {
                proof {
                    assert(decreases_to!(*self => self->Record_0));
                }
                rows_scoped(rows, vars, tycons)
            },
            Type::Flex(rows, tail) => {
                proof {
                    assert(decreases_to!(*self => self->Flex_0));
                }
                contains(vars, *tail) && rows_scoped(rows, vars, tycons)
            },
        }
    }

    /// A copy of `self` with each variable `from[k]` renamed to `to[k]`.
    pub fn rename(&self, from: &Vec<usize>, to: &Vec<usize>) -> (r: Type)
        requires
            from@.no_duplicates(),
            from.len() == to.len(),
        ensures
            renamed(*self, r, from@, to@),
        decreases *self, 1nat,
    {
        match self {
            Type::Var(x) => Type::Var(rename_one(*x, from, to)),
            Type::Con(tc, args) => {
                let mut out: Vec<Type> = Vec::new();
                let mut i: usize = 0;
                while i < args.len()
                    invariant
                        0 <= i <= args.len(),
                        out.len() == i,
                        from@.no_duplicates(),
                        from.len() == to.len(),
                        *self == Type::Con(self->Con_0, *args),
                        forall|j: int| 0 <= j < i ==> renamed(#[trigger] args@[j], out@[j], from@, to@),
                    decreases args.len() - i,
                {
                    proof {
                        assert(decreases_to!(*self => self->Con_1));
                        assert(decreases_to!(*args => args[i as int]));
                    }
                    let a = args[i].rename(from, to);
                    out.push(a);
                    i = i + 1;
                }
                Type::Con(*tc, out)
            },
            Type::Record(rows) => {
                proof {
                    assert(decreases_to!(*self => self->Record_0));
                }
                Type::Record(rename_rows(rows, from, to))
            },
            Type::Flex(rows, tail) => {
                proof {
                    assert(decreases_to!(*self => self->Flex_0));
                }
                let rs = rename_rows(rows, from, to);
                Type::Flex(rs, rename_one(*tail, from, to))
            },
        }
    }

    /// The type variables of `self`, each once.
    pub fn free_vars(&self) -> (r: Vec<usize>)
        ensures
            r@.no_duplicates(),
            forall|v: usize| r@.contains(v) <==> occurs(v, *self),
    {
        let mut acc: Vec<usize> = Vec::new();
        self.add_free_vars(&mut acc);
        acc
    }
}

/// The variable that `x` becomes when each `from[k]` is renamed to `to[k]`.
pub open spec fn rename_var(x: usize, from: Seq<usize>, to: Seq<usize>) -> usize {
    if exists|k: int| 0 <= k < from.len() && from[k] == x {
        to[choose|k: int| 0 <= k < from.len() && from[k] == x]
    } else {
        x
    }
}

/// `b` is `a` with its type variables renamed by [`rename_var`].
pub open spec fn renamed(a: Type, b: Type, from: Seq<usize>, to: Seq<usize>) -> bool
    decreases a,
{
    match a {
        Type::Var(x) => b == Type::Var(rename_var(x, from, to)),
        Type::Con(tc, args) => b matches Type::Con(tc2, bargs) && tc2 == tc && bargs.len() == args.len()
            && forall|i: int| 0 <= i < args.len() ==> renamed(#[trigger] args[i], bargs[i], from, to),
        Type::Record(rows) => b matches Type::Record(brows) && brows.len() == rows.len() && forall|i: int|
            0 <= i < rows.len() ==> brows[i].label == rows[i].label && brows[i].span == rows[i].span
                && renamed(#[trigger] rows[i].data, brows[i].data, from, to),
        Type::Flex(rows, tail) => b matches Type::Flex(brows, btail) && btail == rename_var(tail, from, to)
            && brows.len() == rows.len() && forall|i: int|
            0 <= i < rows.len() ==> brows[i].label == rows[i].label && brows[i].span == rows[i].span
                && renamed(#[trigger] rows[i].data, brows[i].data, from, to),
    }
}

fn rename_one(x: usize, from: &Vec<usize>, to: &Vec<usize>) -> (r: usize)
    requires
        from@.no_duplicates(),
        from.len() == to.len(),
    ensures
        r == rename_var(x, from@, to@),
{
    let mut k: usize = 0;
    while k < from.len()
        invariant
            0 <= k <= from.len(),
            from@.no_duplicates(),
            from.len() == to.len(),
            forall|j: int| 0 <= j < k ==> from@[j] != x,
        decreases from.len() - k,
    {
        if from[k] == x {
            let ghost c = choose|j: int| 0 <= j < from.len() && from@[j] == x;
            assert(c == k as int);
            return to[k];
        }
        k = k + 1;
    }
    x
}

fn rename_rows(rows: &Vec<Row<Type>>, from: &Vec<usize>, to: &Vec<usize>) -> (r: Vec<Row<Type>>)
    requires
        from@.no_duplicates(),
        from.len() == to.len(),
    ensures
        r.len() == rows.len(),
        forall|i: int| 0 <= i < rows.len() ==> #[trigger] r@[i].label == rows@[i].label,
        forall|i: int| 0 <= i < rows.len() ==> #[trigger] r@[i].span == rows@[i].span,
        forall|i: int| 0 <= i < rows.len() ==> renamed(#[trigger] rows@[i].data, r@[i].data, from@, to@),
    decreases rows,
{
    let mut out: Vec<Row<Type>> = Vec::new();
    let mut i: usize = 0;
    while i < rows.len()
        invariant
            0 <= i <= rows.len(),
            out.len() == i,
            from@.no_duplicates(),
            from.len() == to.len(),
            forall|j: int| 0 <= j < i ==> #[trigger] out@[j].label == rows@[j].label,
            forall|j: int| 0 <= j < i ==> #[trigger] out@[j].span == rows@[j].span,
            forall|j: int| 0 <= j < i ==> renamed(#[trigger] rows@[j].data, out@[j].data, from@, to@),
        decreases rows.len() - i,
    {
        proof {
            assert(decreases_to!(*rows => rows[i as int]));
            assert(decreases_to!(rows[i as int] => rows[i as int].data));
        }
        let data = rows[i].data.rename(from, to);
        out.push(Row { label: rows[i].label, data, span: rows[i].span });
        i = i + 1;
    }
    out
}

/// The occurs check made before linking the variable `v` to `t`.
pub fn check_occurs(v: usize, t: &Type) -> (r: Result<(), UnifyError>)
    ensures
        r is Ok <==> !occurs(v, *t),
        r is Err ==> r == Err::<(), UnifyError>(UnifyError::Occurs(v)),
{
    let fv = t.free_vars();
    if contains(&fv, v) {
        Err(UnifyError::Occurs(v))
    } else {
        Ok(())
    }
}

impl Scheme {
    /// Well formed: no variable is quantified twice.
    pub open spec fn wf(&self) -> bool {
        self.vars@.no_duplicates()
    }

    /// The fresh variables `next, next + 1, ...` that instantiation uses, one
    /// for each quantified variable.
    pub open spec fn fresh_vars(&self, next: usize) -> Seq<usize> {
        Seq::new(self.vars@.len(), |k: int| (next + k) as usize)
    }

    /// The body with the `k`-th quantified variable replaced by the fresh
    /// variable `next + k`.
    pub fn instantiate(&self, next: usize) -> (r: Type)
        requires
            self.wf(),
            next + self.vars.len() <= usize::MAX,
        ensures
            renamed(self.ty, r, self.vars@, self.fresh_vars(next)),
    {
        let mut to: Vec<usize> = Vec::new();
        let mut k: usize = 0;
        while k < self.vars.len()
            invariant
                0 <= k <= self.vars.len(),
                next + self.vars.len() <= usize::MAX,
                to@ == self.fresh_vars(next).subrange(0, k as int),
            decreases self.vars.len() - k,
        {
            to.push(next + k);
            assert(to@ =~= self.fresh_vars(next).subrange(0, k + 1));
            k = k + 1;
        }
        assert(to@ =~= self.fresh_vars(next));
        self.ty.rename(&self.vars, &to)
    }
}

/// `v` is free in the environment: some scheme of `env` mentions it
/// without quantifying it.
pub open spec fn env_free(env: Seq<Scheme>, v: usize) -> bool {
    exists|k: int| 0 <= k < env.len() && occurs(v, (#[trigger] env[k]).ty) && !env[k].vars@.contains(v)
}

/// The type variables free in the environment `env`, each once.
pub fn env_free_vars(env: &Vec<Scheme>) -> (r: Vec<usize>)
    ensures
        r@.no_duplicates(),
        forall|v: usize| r@.contains(v) <==> env_free(env@, v),
{
    let mut acc: Vec<usize> = Vec::new();
    let mut k: usize = 0;
    while k < env.len()
        invariant
            0 <= k <= env.len(),
            acc@.no_duplicates(),
            forall|v: usize| #[trigger] acc@.contains(v) <==> env_free(env@.subrange(0, k as int), v),
        decreases env.len() - k,
    {
        let fv = env[k].ty.free_vars();
        let ghost acc_k = acc@;
        let mut i: usize = 0;
        while i < fv.len()
            invariant
                0 <= k < env.len(),
                0 <= i <= fv.len(),
                fv@.no_duplicates(),
                forall|v: usize| fv@.contains(v) <==> occurs(v, env@[k as int].ty),
                acc@.no_duplicates(),
                forall|v: usize| #[trigger] acc@.contains(v) <==> (acc_k.contains(v) || (fv@.subrange(0, i as int).contains(v)
                    && !env@[k as int].vars@.contains(v))),
            decreases fv.len() - i,
        {
            let x = fv[i];
            let ghost prefix = fv@.subrange(0, i as int);
            let ghost a0 = acc@;
            assert(fv@.subrange(0, i + 1) =~= prefix.push(x));
            if !contains(&env[k].vars, x) {
                add_var(&mut acc, x);
            }
            proof {
                assert forall|v: usize| #[trigger] acc@.contains(v) <==> (acc_k.contains(v) || (fv@.subrange(0, i + 1).contains(v)
                    && !env@[k as int].vars@.contains(v))) by {
                    lemma_push_contains(prefix, x, v);
                }
            }
            i = i + 1;
        }
        proof {
            assert(fv@.subrange(0, fv.len() as int) =~= fv@);
            let pre = env@.subrange(0, k as int);
            let next = env@.subrange(0, k + 1);
            assert forall|v: usize| #[trigger] acc@.contains(v) <==> env_free(next, v) by {
                if env_free(pre, v) {
                    let m = choose|m: int| 0 <= m < pre.len() && occurs(v, (#[trigger] pre[m]).ty) && !pre[m].vars@.contains(v);
                    assert(next[m] == pre[m]);
                }
                if env_free(next, v) {
                    let m = choose|m: int| 0 <= m < next.len() && occurs(v, (#[trigger] next[m]).ty) && !next[m].vars@.contains(v);
                    if m < k {
                        assert(next[m] == pre[m]);
                    } else {
                        assert(next[m] == env@[k as int]);
                    }
                }
                if occurs(v, env@[k as int].ty) && !env@[k as int].vars@.contains(v) {
                    assert(next[k as int] == env@[k as int]);
                }
            }
        }
        k = k + 1;
    }
    assert(env@.subrange(0, env.len() as int) =~= env@);
    acc
}

/// Generalizes `ty` in the environment `env`: the scheme quantifies
/// exactly the type variables of `ty` that are not free in `env`.
pub fn generalize(env: &Vec<Scheme>, ty: Type) -> (s: Scheme)
    ensures
        s.ty == ty,
        s.wf(),
        forall|v: usize| s.vars@.contains(v) <==> (occurs(v, ty) && !env_free(env@, v)),
{
    let free = env_free_vars(env);
    quantify_except(&free, ty)
}

/// Quantifies `ty` over each of its type variables that is not in `env`.
fn quantify_except(env: &Vec<usize>, ty: Type) -> (s: Scheme)
    ensures
        s.ty == ty,
        s.vars@.no_duplicates(),
        forall|v: usize| s.vars@.contains(v) <==> (occurs(v, ty) && !env@.contains(v)),
{
    let fv = ty.free_vars();
    let mut vars: Vec<usize> = Vec::new();
    let mut i: usize = 0;
    while i < fv.len()
        invariant
            0 <= i <= fv.len(),
            fv@.no_duplicates(),
            vars@.no_duplicates(),
            forall|v: usize| #[trigger] vars@.contains(v) <==> (fv@.subrange(0, i as int).contains(v) && !env@.contains(v)),
        decreases fv.len() - i,
    {
        let x = fv[i];
        assert(fv@.subrange(0, i + 1) =~= fv@.subrange(0, i as int).push(x));
        let ghost prefix = fv@.subrange(0, i as int);
        let ghost v0 = vars@;
        if !contains(env, x) {
            assert(fv@[i as int] == x);
            assert(!prefix.contains(x));
            proof {
                lemma_push_no_duplicates(v0, x);
            }
            vars.push(x);
        }
        proof {
            assert forall|v: usize| #[trigger] vars@.contains(v) <==> (fv@.subrange(0, i + 1).contains(v) && !env@.contains(v)) by {
                lemma_push_contains(prefix, x, v);
                lemma_push_contains(v0, x, v);
            }
        }
        i = i + 1;
    }
    assert(fv@.subrange(0, fv.len() as int) =~= fv@);
    Scheme { vars, ty }
}

/// Binds `ty`, the type of `rhs`, under the value restriction: a
/// non-expansive right-hand side is generalized as [`generalize`] does; an
/// expansive one stays monomorphic, and the warning names a type variable
/// that would otherwise have been quantified.
pub fn generalize_binding(env: &Vec<Scheme>, rhs: &Expr, ty: Type) -> (r: (Scheme, Option<usize>))
    ensures
        r.0.ty == ty,
        is_non_expansive(*rhs) ==> r.1 is None && r.0.wf() && forall|v: usize|
            r.0.vars@.contains(v) <==> (occurs(v, ty) && !env_free(env@, v)),
        !is_non_expansive(*rhs) ==> r.0.vars@.len() == 0,
        !is_non_expansive(*rhs) ==> match r.1 {
            Some(w) => occurs(w, ty) && !env_free(env@, w),
            None => forall|v: usize| occurs(v, ty) ==> env_free(env@, v),
        },
{
    if rhs.non_expansive() {
        (generalize(env, ty), None)
    } else {
        let s = generalize(env, ty);
        let warning = if s.vars.len() > 0 {
            assert(s.vars@.contains(s.vars@[0]));
            Some(s.vars[0])
        } else {
            Option::None
        };
        (Scheme { vars: Vec::new(), ty: s.ty }, warning)
    }
}

} // verus!
