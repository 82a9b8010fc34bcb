use vstd::prelude::*;
use crate::names::{Const, Span, Symbol};
use crate::types::{scoped, Constructor, Tycon, Type};
use crate::builtin::{c_ref, spec_c_ref};

verus! {

/// The forms an elaborated expression can take.
#[derive(Debug)]
pub enum ExprKind {
    App(Expr, Expr),
    Case(Expr, Vec<Rule>),
    Con(Constructor, Vec<Type>),
    Const(Const),
    Handle(Expr, Vec<Rule>),
    Lambda(Lambda),
    Let(Vec<Decl>, Expr),
    List(Vec<Expr>),
    Primitive(Symbol),
    Raise(Expr),
    Record(Vec<Row<Expr>>),
    Sequence(Vec<Expr>),
    Var(Symbol),
}

/// A typed expression node.
#[derive(Debug)]
pub struct Expr {
    pub expr: Box<ExprKind>,
    pub ty: Type,
    pub span: Span,
}

/// An abstraction `fn arg : ty => body`.
#[derive(Debug)]
pub struct Lambda {
    pub arg: Symbol,
    pub ty: Type,
    pub body: Expr,
}

/// The forms an elaborated pattern can take.
#[derive(Debug)]
pub enum PatKind {
    /// Constructor application
    App(Constructor, Option<Pat>),
    /// Constant
    Const(Const),
    /// Literal list
    List(Vec<Pat>),
    /// Record
    Record(Vec<Row<Pat>>),
    /// Variable binding
    Var(Symbol),
    /// Wildcard
    Wild,
}

/// A typed pattern node.
#[derive(Debug)]
pub struct Pat {
    pub pat: Box<PatKind>,
    pub ty: Type,
    pub span: Span,
}

/// One arm `pat => expr` of a match.
#[derive(Debug)]
pub struct Rule {
    pub pat: Pat,
    pub expr: Expr,
}

/// A datatype declaration: its type constructor, the ids of its bound type
/// variables, and its constructors with their optional payload types.
#[derive(Debug)]
pub struct Datatype {
    pub tycon: Tycon,
    pub tyvars: Vec<usize>,
    pub constructors: Vec<(Constructor, Option<Type>)>,
}

/// A declaration.
#[derive(Debug)]
pub enum Decl {
    Datatype(Datatype),
    Fun(Vec<usize>, Vec<Lambda>),
    Val(Rule),
    Exn(Constructor, Option<Type>),
}

/// A labelled field of a record, in an expression, a pattern or a type.
#[derive(Copy, Clone, Debug, PartialEq)]
pub struct Row<T> {
    pub label: Symbol,
    pub data: T,
    pub span: Span,
}

/// The value restriction's notion of a syntactic value: constants,
/// variables, primitives, lambdas, constructors other than `ref`, and
/// records and lists built only from such expressions.
pub open spec fn is_non_expansive(e: Expr) -> bool
    decreases e,
{
    match *e.expr {
        ExprKind::Con(c, _) => c != spec_c_ref(),
        ExprKind::Const(_) => true,
        ExprKind::Lambda(_) => true,
        ExprKind::Var(_) => true,
        ExprKind::Primitive(_) => true,
        ExprKind::Record(rows) => forall|i: int|
            0 <= i < rows.len() ==> is_non_expansive(#[trigger] rows[i].data),
        ExprKind::List(es) => forall|i: int| 0 <= i < es.len() ==> is_non_expansive(#[trigger] es[i]),
        _ => false,
    }
}

/// Replacing the one expansive field of a record expression by a lambda
/// turns an expansive record into a non-expansive one.
pub proof fn lemma_record_field_to_lambda(e: Expr, m: Expr, k: int)
    requires
        *e.expr is Record,
        *m.expr is Record,
        0 <= k < (*e.expr)->Record_0.len(),
        (*m.expr)->Record_0.len() == (*e.expr)->Record_0.len(),
        forall|j: int|
            0 <= j < (*e.expr)->Record_0.len() && j != k ==> (*m.expr)->Record_0[j]
                == (*e.expr)->Record_0[j] && is_non_expansive((*e.expr)->Record_0[j].data),
        !is_non_expansive((*e.expr)->Record_0[k].data),
        *(*m.expr)->Record_0[k].data.expr is Lambda,
    ensures
        !is_non_expansive(e),
        is_non_expansive(m),
{
    let rows = (*m.expr)->Record_0;
    assert forall|j: int| 0 <= j < rows.len() implies is_non_expansive(#[trigger] rows[j].data) by {
        if j != k {
            assert(rows[j] == (*e.expr)->Record_0[j]);
        }
    }
}

/// Replacing the one expansive element of a list expression by a lambda
/// turns an expansive list into a non-expansive one.
pub proof fn lemma_list_element_to_lambda(e: Expr, m: Expr, k: int)
    requires
        *e.expr is List,
        *m.expr is List,
        0 <= k < (*e.expr)->List_0.len(),
        (*m.expr)->List_0.len() == (*e.expr)->List_0.len(),
        forall|j: int|
            0 <= j < (*e.expr)->List_0.len() && j != k ==> (*m.expr)->List_0[j]
                == (*e.expr)->List_0[j] && is_non_expansive((*e.expr)->List_0[j]),
        !is_non_expansive((*e.expr)->List_0[k]),
        *(*m.expr)->List_0[k].expr is Lambda,
    ensures
        !is_non_expansive(e),
        is_non_expansive(m),
{
    let es = (*m.expr)->List_0;
    assert forall|j: int| 0 <= j < es.len() implies is_non_expansive(#[trigger] es[j]) by {
        if j != k {
            assert(es[j] == (*e.expr)->List_0[j]);
        }
    }
}

/// Any expression whose node is a lambda is non-expansive, whatever it
/// replaced.
pub proof fn lemma_lambda_non_expansive(e: Expr)
    requires
        *e.expr is Lambda,
    ensures
        is_non_expansive(e),
{
}

impl Expr {
    pub fn new(expr: ExprKind, ty: Type, span: Span) -> (r: Expr)
        ensures
            *r.expr == expr,
            r.ty == ty,
            r.span == span,
    {
        Expr { expr: Box::new(expr), ty, span }
    }

    /// Whether the expression may be generalized under the value restriction.
    pub fn non_expansive(&self) -> (r: bool)
        ensures
            r == is_non_expansive(*self),
        decreases *self,
    {
        match &*self.expr {
            ExprKind::Con(c, _) => {
                let rc = c_ref();
                !(*c == rc)
            },
            ExprKind::Const(_) => true,
            ExprKind::Lambda(_) => true,
            ExprKind::Var(_) => true,
            ExprKind::Primitive(_) => true,
            ExprKind::Record(rows) => {
                let mut i: usize = 0;
                while i < rows.len()
                    invariant
                        0 <= i <= rows.len(),
                        *self.expr == ExprKind::Record(*rows),
                        forall|j: int| 0 <= j < i ==> is_non_expansive(#[trigger] rows[j].data),
                    decreases rows.len() - i,
                {
                    proof {
                        assert(decreases_to!(*self => *self.expr));
                        assert(decreases_to!(*self.expr => (*self.expr)->Record_0));
                        assert(decreases_to!(*rows => rows[i as int]));
                        assert(decreases_to!(rows[i as int] => rows[i as int].data));
                    }
                    if !rows[i].data.non_expansive() {
                        assert(!is_non_expansive(rows[i as int].data));
                        return false;
                    }
                    i = i + 1;
                }
                true
            },
            ExprKind::List(es) => {
                let mut i: usize = 0;
                while i < es.len()
                    invariant
                        0 <= i <= es.len(),
                        *self.expr == ExprKind::List(*es),
                        forall|j: int| 0 <= j < i ==> is_non_expansive(#[trigger] es[j]),
                    decreases es.len() - i,
                {
                    proof {
                        assert(decreases_to!(*self => *self.expr));
                        assert(decreases_to!(*self.expr => (*self.expr)->List_0));
                        assert(decreases_to!(*es => es[i as int]));
                    }
                    if !es[i].non_expansive() {
                        assert(!is_non_expansive(es[i as int]));
                        return false;
                    }
                    i = i + 1;
                }
                true
            },
            _ => false,
        }
    }
}

/// Every constructor payload of `d` uses only the type variables `d`
/// declares and the type constructors whose ids are in `tycons`.
pub open spec fn payloads_scoped(d: Datatype, tycons: Seq<u32>) -> bool {
    forall|i: int|
        0 <= i < d.constructors.len() ==> match (#[trigger] d.constructors[i]).1 {
            Some(t) => scoped(t, d.tyvars@, tycons),
            None => true,
        }
}

/// The type constructor ids that a group of datatypes declares.
pub open spec fn group_ids(group: Seq<Datatype>) -> Seq<u32> {
    group.map_values(|d: Datatype| d.tycon.id.0)
}

/// A mutually recursive group of datatypes is well scoped when each
/// payload uses only its own datatype's type variables, and type
/// constructors bound before the group (`outer`) or by the group itself.
pub open spec fn group_well_scoped(group: Seq<Datatype>, outer: Seq<u32>) -> bool {
    forall|k: int| 0 <= k < group.len() ==> payloads_scoped(#[trigger] group[k], outer + group_ids(group))
}

impl Datatype {
    /// Whether every payload uses only this datatype's type variables and
    /// the type constructors whose ids are in `tycons`.
    pub fn payloads_scoped(&self, tycons: &Vec<u32>) -> (r: bool)
        ensures
            r == payloads_scoped(*self, tycons@),
    {
        let mut i: usize = 0;
        while i < self.constructors.len()
            invariant
                0 <= i <= self.constructors.len(),
                forall|j: int|
                    0 <= j < i ==> match (#[trigger] self.constructors[j]).1 {
                        Some(t) => scoped(t, self.tyvars@, tycons@),
                        None => true,
                    },
            decreases self.constructors.len() - i,
        {
            match &self.constructors[i].1 {
                Some(t) => {
                    if !t.is_scoped(&self.tyvars, tycons) {
                        assert(!scoped(self.constructors[i as int].1->Some_0, self.tyvars@, tycons@));
                        return false;
                    }
                },
                None => {},
            }
            i = i + 1;
        }
        true
    }
}

/// Checks a group of mutually recursive datatypes declared together:
/// every type constructor of the group is in scope for every payload, as
/// are those bound before it, whose ids are `outer`.
pub fn check_datatype_group(group: &Vec<Datatype>, outer: &Vec<u32>) -> (r: bool)
    ensures
        r == group_well_scoped(group@, outer@),
{
    let mut bound: Vec<u32> = Vec::new();
    let mut i: usize = 0;
    while i < outer.len()
        invariant
            0 <= i <= outer.len(),
            bound@ == outer@.subrange(0, i as int),
        decreases outer.len() - i,
    {
        bound.push(outer[i]);
        assert(outer@.subrange(0, i + 1) =~= outer@.subrange(0, i as int).push(outer@[i as int]));
        i = i + 1;
    }
    assert(outer@.subrange(0, outer.len() as int) =~= outer@);
    let mut k: usize = 0;
    while k < group.len()
        invariant
            0 <= k <= group.len(),
            bound@ == outer@ + group_ids(group@).subrange(0, k as int),
        decreases group.len() - k,
    {
        bound.push(group[k].tycon.id.0);
        assert(group_ids(group@).subrange(0, k + 1) =~= group_ids(group@).subrange(0, k as int).push(
            group@[k as int].tycon.id.0,
        ));
        assert(bound@ =~= outer@ + group_ids(group@).subrange(0, k + 1));
        k = k + 1;
    }
    assert(group_ids(group@).subrange(0, group.len() as int) =~= group_ids(group@));
    let mut j: usize = 0;
    while j < group.len()
        invariant
            0 <= j <= group.len(),
            bound@ == outer@ + group_ids(group@),
            forall|m: int| 0 <= m < j ==> payloads_scoped(#[trigger] group@[m], bound@),
        decreases group.len() - j,
    {
        if !group[j].payloads_scoped(&bound) {
            return false;
        }
        j = j + 1;
    }
    true
}

impl Pat {
    pub fn new(pat: PatKind, ty: Type, span: Span) -> (r: Pat)
        ensures
            *r.pat == pat,
            r.ty == ty,
            r.span == span,
    {
        Pat { pat: Box::new(pat), ty, span }
    }
}

impl<T> Row<T> {
    /// Applies `f` to the field's data, keeping its label and span.
    pub fn fmap<S, F: FnOnce(&T) -> S>(&self, f: F) -> (r: Row<S>)
        requires
            f.requires((&self.data,)),
        ensures
            r.label == self.label,
            r.span == self.span,
            f.ensures((&self.data,), r.data),
    {
        Row { label: self.label, span: self.span, data: f(&self.data) }
    }
}

impl<T, E> Row<Result<T, E>> {
    /// Moves a failure out of the field: the error if the data is one, else
    /// the same row over the success value.
    pub fn flatten(self) -> (r: Result<Row<T>, E>)
        ensures
            match self.data {
                Ok(d) => r == Ok::<Row<T>, E>(Row { label: self.label, data: d, span: self.span }),
                Err(e) => r == Err::<Row<T>, E>(e),
            },
    {
        match self.data {
            Ok(d) => Ok(Row { label: self.label, span: self.span, data: d }),
            Err(e) => Err(e),
        }
    }
}

} // verus!
