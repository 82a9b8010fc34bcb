use vstd::prelude::*;

verus! {

/// An interned identifier; two symbols are the same name exactly when their
/// ids are equal.
#[derive(Copy, Clone, Debug, PartialEq, Eq, Hash, Structural)]
pub struct Symbol(pub u32);

/// A source range `(file, lo, hi)`; a synthetic span has `hi == lo`.
#[derive(Copy, Clone, Debug, PartialEq, Eq, Hash, Structural)]
pub struct Span {
    pub file: u32,
    pub lo: u32,
    pub hi: u32,
}

impl Span {
    pub open spec fn wf(&self) -> bool {
        self.lo <= self.hi
    }

    /// A zero-width span at `pos` of `file`.
    pub fn synthetic(file: u32, pos: u32) -> (r: Span)
        ensures
            r.wf(),
            r == (Span { file, lo: pos, hi: pos }),
    {
        Span { file, lo: pos, hi: pos }
    }
}

/// Identifier of a type constructor; built-in ones have fixed ids.
#[derive(Copy, Clone, Debug, Default, PartialEq, Eq, Hash, Structural)]
pub struct TypeId(pub u32);

/// Identifier of an expression node.
#[derive(Copy, Clone, Debug, Default, PartialEq, Eq, Hash, Structural)]
pub struct ExprId(pub u32);

/// A literal constant.
#[derive(Copy, Clone, Debug, PartialEq, Eq, Hash, Structural)]
pub enum Const {
    Unit,
    Int(i64),
    Char(char),
    String(Symbol),
}

} // verus!
