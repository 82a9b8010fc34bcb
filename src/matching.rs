use vstd::prelude::*;
use crate::core_ir::{Pat, PatKind};

verus! {

/// A value that no rule of a match covers: any value at all (`_`), or one
/// built with the constructor of the given tag.
#[derive(Copy, Clone, Debug, PartialEq, Eq, Structural)]
pub enum Witness {
    Any,
    Constructor(u16),
}

/// A pattern that every value of its type matches: a wildcard, a variable,
/// or a record of such patterns.
pub open spec fn irrefutable(p: Pat) -> bool
    decreases p,
{
    match *p.pat {
        PatKind::Wild => true,
        PatKind::Var(_) => true,
        PatKind::Record(rows) => forall|i: int| 0 <= i < rows.len() ==> irrefutable(#[trigger] rows[i].data),
        _ => false,
    }
}

/// `p` matches every value built with the constructor of tag `tag`.
pub open spec fn covers_tag(p: Pat, tag: u16) -> bool {
    irrefutable(p) || match *p.pat {
        PatKind::App(c, arg) => c.tag == tag && match arg {
            Some(a) => irrefutable(a),
            None => true,
        },
        _ => false,
    }
}

pub open spec fn some_irrefutable(pats: Seq<Pat>) -> bool {
    exists|i: int| 0 <= i < pats.len() && irrefutable(#[trigger] pats[i])
}

pub open spec fn tag_covered(pats: Seq<Pat>, tag: u16) -> bool {
    exists|i: int| 0 <= i < pats.len() && covers_tag(#[trigger] pats[i], tag)
}

/// The rules' patterns cover the scrutinee's type, where `span` is the
/// number of constructors of a datatype and `None` stands for a type with
/// unboundedly many values (integers, strings, exceptions).
pub open spec fn exhaustive(pats: Seq<Pat>, span: Option<u16>) -> bool {
    some_irrefutable(pats) || match span {
        Some(n) => forall|t: u16| t < n ==> tag_covered(pats, t),
        None => false,
    }
}

impl Pat {
    /// Whether every value of the pattern's type matches it.
    pub fn is_irrefutable(&self) -> (r: bool)
        ensures
            r == irrefutable(*self),
        decreases *self,
    {
        match &*self.pat {
            PatKind::Wild => true,
            PatKind::Var(_) => true,
            PatKind::Record(rows) => {
                let mut i: usize = 0;
                while i < rows.len()
                    invariant
                        0 <= i <= rows.len(),
                        *self.pat == PatKind::Record(*rows),
                        forall|j: int| 0 <= j < i ==> irrefutable(#[trigger] rows[j].data),
                    decreases rows.len() - i,
                {
                    proof {
                        assert(decreases_to!(*self => *self.pat));
                        assert(decreases_to!(*self.pat => (*self.pat)->Record_0));
                        assert(decreases_to!(*rows => rows[i as int]));
                        assert(decreases_to!(rows[i as int] => rows[i as int].data));
                    }
                    if !rows[i].data.is_irrefutable() {
                        assert(!irrefutable(rows[i as int].data));
                        return false;
                    }
                    i = i + 1;
                }
                true
            },
            _ => false,
        }
    }

    /// Whether the pattern matches every value built with the constructor
    /// of tag `tag`.
    pub fn covers_tag(&self, tag: u16) -> (r: bool)
        ensures
            r == covers_tag(*self, tag),
    {
        if self.is_irrefutable() {
            return true;
        }
        match &*self.pat {
            PatKind::App(c, arg) => {
                if c.tag != tag {
                    return false;
                }
                match arg {
                    Some(a) => a.is_irrefutable(),
                    None => true,
                }
            },
            _ => false,
        }
    }
}

/// Checks a match on its outermost constructor: `None` when the patterns
/// cover the type, else a value that no rule covers (the constructor of
/// least tag, where the type has constructors). A constructor whose
/// argument pattern is refutable counts as uncovered, so a match that only
/// its nested patterns make exhaustive is reported, never the converse.
pub fn match_witness(pats: &Vec<Pat>, span: Option<u16>) -> (r: Option<Witness>)
    ensures
        r is None <==> exhaustive(pats@, span),
        r matches Some(Witness::Constructor(t)) ==> span matches Some(n) && t < n && !tag_covered(
            pats@,
            t,
        ) && forall|u: u16| u < t ==> tag_covered(pats@, u),
        r matches Some(Witness::Any) ==> span is None,
{
    assert(pats@.subrange(0, pats.len() as int) =~= pats@);
    witness_upto(pats, pats.len(), span)
}

/// Whether one of the first `len` patterns covers the constructor of tag
/// `tag`.
fn tag_covered_upto(pats: &Vec<Pat>, len: usize, tag: u16) -> (r: bool)
    requires
        len <= pats.len(),
    ensures
        r == tag_covered(pats@.subrange(0, len as int), tag),
{
    let ghost prev = pats@.subrange(0, len as int);
    let mut k: usize = 0;
    while k < len
        invariant
            0 <= k <= len <= pats.len(),
            prev == pats@.subrange(0, len as int),
            forall|j: int| 0 <= j < k ==> !covers_tag(#[trigger] prev[j], tag),
        decreases len - k,
    {
        if pats[k].covers_tag(tag) {
            assert(prev[k as int] == pats@[k as int]);
            return true;
        }
        assert(prev[k as int] == pats@[k as int]);
        k = k + 1;
    }
    false
}

/// [`match_witness`] on the first `len` patterns.
fn witness_upto(pats: &Vec<Pat>, len: usize, span: Option<u16>) -> (r: Option<Witness>)
    requires
        len <= pats.len(),
    ensures
        r is None <==> exhaustive(pats@.subrange(0, len as int), span),
        r matches Some(Witness::Constructor(t)) ==> span matches Some(n) && t < n && !tag_covered(
            pats@.subrange(0, len as int),
            t,
        ) && forall|u: u16| u < t ==> tag_covered(pats@.subrange(0, len as int), u),
        r matches Some(Witness::Any) ==> span is None,
{
    let ghost prev = pats@.subrange(0, len as int);
    let mut i: usize = 0;
    while i < len
        invariant
            0 <= i <= len <= pats.len(),
            prev == pats@.subrange(0, len as int),
            forall|j: int| 0 <= j < i ==> !irrefutable(#[trigger] prev[j]),
        decreases len - i,
    {
        assert(prev[i as int] == pats@[i as int]);
        if pats[i].is_irrefutable() {
            assert(irrefutable(prev[i as int]));
            return None;
        }
        i = i + 1;
    }
    let n = match span {
        Some(n) => n,
        None => {
            return Some(Witness::Any);
        },
    };
    let mut t: u16 = 0;
    while t < n
        invariant
            0 <= t <= n,
            len <= pats.len(),
            prev == pats@.subrange(0, len as int),
            span == Some(n),
            !some_irrefutable(prev),
            forall|u: u16| u < t ==> tag_covered(prev, u),
        decreases n - t,
    {
        if !tag_covered_upto(pats, len, t) {
            assert(!exhaustive(prev, span));
            return Some(Witness::Constructor(t));
        }
        t = t + 1;
    }
    None
}

/// Rule `i` can never be chosen: the rules before it already match every
/// value it matches. That is so when an earlier rule covers the whole
/// type, when an earlier rule covers its constructor, when it repeats an
/// earlier constant, or when it is irrefutable and the earlier rules are
/// already exhaustive.
pub open spec fn redundant_at(pats: Seq<Pat>, i: int, span: Option<u16>) -> bool {
    let prev = pats.subrange(0, i);
    ||| exhaustive(prev, span)
    ||| (*pats[i].pat matches PatKind::App(c, _) && tag_covered(prev, c.tag))
    ||| (*pats[i].pat matches PatKind::Const(k) && exists|j: int|
        0 <= j < i && *(#[trigger] pats[j]).pat == PatKind::Const(k))
}

/// The positions of the redundant rules of a match, in increasing order.
pub fn redundant_rules(pats: &Vec<Pat>, span: Option<u16>) -> (r: Vec<usize>)
    ensures
        forall|k: int| 0 <= k < r.len() ==> r@[k] < pats.len() && redundant_at(pats@, r@[k] as int, span),
        forall|i: int| 0 <= i < pats.len() && redundant_at(pats@, i, span) ==> r@.contains(i as usize),
        forall|a: int, b: int| 0 <= a < b < r.len() ==> r@[a] < r@[b],
{
    let mut out: Vec<usize> = Vec::new();
    let mut i: usize = 0;
    while i < pats.len()
        invariant
            0 <= i <= pats.len(),
            forall|k: int| 0 <= k < out.len() ==> out@[k] < i && redundant_at(pats@, out@[k] as int, span),
            forall|m: int| 0 <= m < i && redundant_at(pats@, m, span) ==> out@.contains(m as usize),
            forall|a: int, b: int| 0 <= a < b < out.len() ==> out@[a] < out@[b],
        decreases pats.len() - i,
    {
        let mut red = witness_upto(pats, i, span).is_none();
        if !red {
            match &*pats[i].pat {
                PatKind::App(c, _) => {
                    red = tag_covered_upto(pats, i, c.tag);
                },
                PatKind::Const(k) => {
                    let mut j: usize = 0;
                    while j < i
                        invariant
                            0 <= j <= i < pats.len(),
                            red == exists|m: int| 0 <= m < j && *(#[trigger] pats@[m]).pat == PatKind::Const(*k),
                        decreases i - j,
                    {
                        match &*pats[j].pat {
                            PatKind::Const(k2) => {
                                if *k2 == *k {
                                    red = true;
                                }
                            },
                            _ => {},
                        }
                        j = j + 1;
                    }
                },
                _ => {},
            }
        }
        if red {
            let ghost o = out@;
            out.push(i);
            assert(out@[o.len() as int] == i);
            assert forall|m: int| 0 <= m < i + 1 && redundant_at(pats@, m, span) implies out@.contains(m as usize) by {
                if m < i {
                    let q = choose|q: int| 0 <= q < o.len() && o[q] == m as usize;
                    assert(out@[q] == m as usize);
                }
            }
        }
        i = i + 1;
    }
    out
}

} // verus!
