use vstd::prelude::*;
use crate::names::Symbol;
use crate::core_ir::{Expr, ExprKind, Row};
use crate::names::Span;
use crate::types::Type;
use vstd::multiset::Multiset;
use crate::types::UnifyError;

verus! {

broadcast use vstd::seq_lib::group_to_multiset_ensures, vstd::multiset::group_multiset_axioms;

/// The label ids of `rows`, in order.
pub open spec fn label_ids<T>(rows: Seq<Row<T>>) -> Seq<u32> {
    rows.map_values(|r: Row<T>| r.label.0)
}

/// Labels strictly increase along `rows`: they are unique, and position
/// order is label order.
pub open spec fn labels_sorted<T>(rows: Seq<Row<T>>) -> bool {
    forall|i: int, j: int| 0 <= i < j < rows.len() ==> rows[i].label.0 < rows[j].label.0
}

/// Puts the fields of a record in label order; a label given twice is
/// refused and returned.
pub fn sort_rows<T>(rows: Vec<Row<T>>) -> (r: Result<Vec<Row<T>>, Symbol>)
    ensures
        match r {
            Ok(v) => labels_sorted(v@) && v@.to_multiset() == rows@.to_multiset(),
            Err(l) => label_ids(rows@).to_multiset().count(l.0) >= 2,
        },
{
    let ghost orig = rows@;
    let mut rest = rows;
    let mut out: Vec<Row<T>> = Vec::new();
    assert(out@.to_multiset() =~= Multiset::empty());
    assert(label_ids(out@) =~= Seq::<u32>::empty());
    assert(label_ids(out@).to_multiset() =~= Multiset::empty());
    while rest.len() > 0
        invariant
            orig == rows@,
            labels_sorted(out@),
            out@.to_multiset().add(rest@.to_multiset()) == orig.to_multiset(),
            label_ids(out@).to_multiset().add(label_ids(rest@).to_multiset())
                == label_ids(orig).to_multiset(),
        decreases rest.len(),
    {
        let ghost rest0 = rest@;
        let row = match rest.pop() {
            Some(x) => x,
            None => {
                return Ok(out);
            },
        };
        assert(rest0 =~= rest@.push(row));
        assert(label_ids(rest0) =~= label_ids(rest@).push(row.label.0));
        let l = row.label.0;
        let mut p: usize = 0;
        while p < out.len() && out[p].label.0 < l
            invariant
                0 <= p <= out.len(),
                forall|k: int| 0 <= k < p ==> out@[k].label.0 < l,
            decreases out.len() - p,
        {
            p = p + 1;
        }
        if p < out.len() && out[p].label.0 == l {
            assert(label_ids(out@)[p as int] == l);
            assert(label_ids(out@).contains(l));
            assert(label_ids(out@).to_multiset().count(l) > 0);
            assert(label_ids(rest0).to_multiset().count(l) >= 1);
            assert(label_ids(out@).to_multiset().add(label_ids(rest0).to_multiset())
                == label_ids(orig).to_multiset());
            assert(label_ids(orig).to_multiset().count(l) >= 2);
            return Err(row.label);
        }
        let ghost out0 = out@;
        out.insert(p, row);
        assert(out@ =~= out0.insert(p as int, row));
        assert(label_ids(out@) =~= label_ids(out0).insert(p as int, l));
        assert(out@.to_multiset().add(rest@.to_multiset()) =~= orig.to_multiset());
        assert(label_ids(out@).to_multiset().add(label_ids(rest@).to_multiset())
            =~= label_ids(orig).to_multiset());
        assert forall|i: int, j: int| 0 <= i < j < out@.len() implies out@[i].label.0 < out@[j].label.0 by {
            if j < p {
            } else if j == p {
                assert(out@[i] == out0[i]);
            } else if i < p {
                assert(out@[j] == out0[j - 1]);
                if p < out0.len() {
                    assert(out0[i].label.0 < l);
                }
            } else if i == p {
                assert(out@[j] == out0[j - 1]);
            } else {
                assert(out@[i] == out0[i - 1]);
                assert(out@[j] == out0[j - 1]);
            }
        }
    }
    assert(rest@.to_multiset() =~= Multiset::empty());
    assert(out@.to_multiset().add(rest@.to_multiset()) =~= out@.to_multiset());
    Ok(out)
}

impl Expr {
    /// A record expression over `rows`, its fields put in label order; a
    /// label given twice is refused and returned.
    pub fn record(rows: Vec<Row<Expr>>, ty: Type, span: Span) -> (r: Result<Expr, Symbol>)
        ensures
            match r {
                Ok(e) => e.ty == ty && e.span == span && *e.expr is Record && labels_sorted(
                    (*e.expr)->Record_0@,
                ) && (*e.expr)->Record_0@.to_multiset() == rows@.to_multiset(),
                Err(l) => label_ids(rows@).to_multiset().count(l.0) >= 2,
            },
    {
        match sort_rows(rows) {
            Ok(sorted) => Ok(Expr::new(ExprKind::Record(sorted), ty, span)),
            Err(l) => Err(l),
        }
    }
}

/// Matches the labels of two closed record types, as unification of two
/// closed rows must: they agree exactly when the label sequences are equal;
/// otherwise the error names the least label that only one of them has.
pub fn match_labels<A, B>(a: &Vec<Row<A>>, b: &Vec<Row<B>>) -> (r: Result<(), UnifyError>)
    requires
        labels_sorted(a@),
        labels_sorted(b@),
    ensures
        r is Ok <==> label_ids(a@) == label_ids(b@),
        r is Err ==> r->Err_0 is MissingLabel,
        r matches Err(UnifyError::MissingLabel(l)) ==> (label_ids(a@).contains(l.0) != label_ids(
            b@,
        ).contains(l.0)) && forall|k: u32|
            k < l.0 ==> (label_ids(a@).contains(k) <==> label_ids(b@).contains(k)),
{
    let ghost la = label_ids(a@);
    let ghost lb = label_ids(b@);
    let mut i: usize = 0;
    while i < a.len() && i < b.len()
        invariant
            la == label_ids(a@),
            lb == label_ids(b@),
            labels_sorted(a@),
            labels_sorted(b@),
            0 <= i <= a.len(),
            i <= b.len(),
            forall|k: int| 0 <= k < i ==> a@[k].label.0 == b@[k].label.0,
        decreases a.len() - i,
    {
        let x = a[i].label;
        let y = b[i].label;
        if x.0 < y.0 {
            proof {
                lemma_first_difference(a@, b@, i as int);
            }
            return Err(UnifyError::MissingLabel(x));
        } else if y.0 < x.0 {
            proof {
                lemma_first_difference(b@, a@, i as int);
            }
            return Err(UnifyError::MissingLabel(y));
        }
        i = i + 1;
    }
    if i < a.len() {
        proof {
            lemma_first_difference(a@, b@, i as int);
        }
        Err(UnifyError::MissingLabel(a[i].label))
    } else if i < b.len() {
        proof {
            lemma_first_difference(b@, a@, i as int);
        }
        Err(UnifyError::MissingLabel(b[i].label))
    } else {
        assert(label_ids(a@) =~= label_ids(b@));
        Ok(())
    }
}

fn has_label<T>(rows: &Vec<Row<T>>, l: u32) -> (r: bool)
    ensures
        r == label_ids(rows@).contains(l),
{
    let mut i: usize = 0;
    while i < rows.len()
        invariant
            0 <= i <= rows.len(),
            forall|j: int| 0 <= j < i ==> rows@[j].label.0 != l,
        decreases rows.len() - i,
    {
        if rows[i].label.0 == l {
            assert(label_ids(rows@)[i as int] == l);
            return true;
        }
        i = i + 1;
    }
    false
}

/// The label step of unifying a closed record type with an open one: every
/// label of `open` must be a label of `closed` (else the error names the
/// least one that is not), and the result is the labels of `closed` that
/// `open` lacks, in order, which the open row's tail then stands for.
pub fn residual_labels<A, B>(closed: &Vec<Row<A>>, open: &Vec<Row<B>>) -> (r: Result<Vec<Symbol>, UnifyError>)
    requires
        labels_sorted(closed@),
        labels_sorted(open@),
    ensures
        r is Ok <==> forall|l: u32| label_ids(open@).contains(l) ==> label_ids(closed@).contains(l),
        r matches Err(e) ==> e matches UnifyError::MissingLabel(l) && label_ids(open@).contains(l.0)
            && !label_ids(closed@).contains(l.0) && forall|k: u32|
            k < l.0 && label_ids(open@).contains(k) ==> label_ids(closed@).contains(k),
        r matches Ok(res) ==> (forall|i: int, j: int| 0 <= i < j < res.len() ==> res@[i].0 < res@[j].0)
            && forall|l: u32| res@.contains(Symbol(l)) <==> (label_ids(closed@).contains(l)
                && !label_ids(open@).contains(l)),
{
    let mut j: usize = 0;
    while j < open.len()
        invariant
            0 <= j <= open.len(),
            labels_sorted(open@),
            forall|m: int| 0 <= m < j ==> label_ids(closed@).contains(#[trigger] open@[m].label.0),
        decreases open.len() - j,
    {
        let l = open[j].label;
        if !has_label(closed, l.0) {
            proof {
                assert(label_ids(open@)[j as int] == l.0);
                assert forall|k: u32| k < l.0 && label_ids(open@).contains(k) implies label_ids(closed@).contains(k) by {
                    let m = choose|m: int| 0 <= m < label_ids(open@).len() && label_ids(open@)[m] == k;
                    if m >= j {
                        assert(open@[j as int].label.0 <= open@[m].label.0);
                    }
                    assert(open@[m].label.0 == k);
                }
                assert(!(forall|l: u32| label_ids(open@).contains(l) ==> label_ids(closed@).contains(l)));
            }
            return Err(UnifyError::MissingLabel(l));
        }
        j = j + 1;
    }
    assert forall|l: u32| label_ids(open@).contains(l) implies label_ids(closed@).contains(l) by {
        let m = choose|m: int| 0 <= m < label_ids(open@).len() && label_ids(open@)[m] == l;
        assert(open@[m].label.0 == l);
    }
    let mut res: Vec<Symbol> = Vec::new();
    let mut i: usize = 0;
    while i < closed.len()
        invariant
            0 <= i <= closed.len(),
            labels_sorted(closed@),
            forall|a: int, b: int| 0 <= a < b < res.len() ==> res@[a].0 < res@[b].0,
            forall|a: int| 0 <= a < res.len() ==> exists|c: int| 0 <= c < i && (#[trigger] res@[a]) == closed@[c].label,
            forall|l: u32| #[trigger] res@.contains(Symbol(l)) <==> (label_ids(closed@.subrange(0, i as int)).contains(l)
                && !label_ids(open@).contains(l)),
        decreases closed.len() - i,
    {
        let l = closed[i].label;
        let ghost r0 = res@;
        let ghost pre = closed@.subrange(0, i as int);
        assert(label_ids(closed@.subrange(0, i + 1)) =~= label_ids(pre).push(l.0));
        if !has_label(open, l.0) {
            res.push(l);
            assert forall|a: int, b: int| 0 <= a < b < res.len() implies res@[a].0 < res@[b].0 by {
                if b == r0.len() {
                    let c = choose|c: int| 0 <= c < i && (#[trigger] r0[a]) == closed@[c].label;
                    assert(res@[a] == r0[a]);
                }
            }
            assert forall|a: int| 0 <= a < res.len() implies exists|c: int| 0 <= c < i + 1 && (#[trigger] res@[a]) == closed@[c].label by {
                if a < r0.len() {
                    assert(res@[a] == r0[a]);
                    let c = choose|c: int| 0 <= c < i && (#[trigger] r0[a]) == closed@[c].label;
                    assert(0 <= c < i + 1 && res@[a] == closed@[c].label);
                } else {
                    assert(res@[a] == closed@[i as int].label);
                }
            }
        }
        assert forall|x: u32| #[trigger] res@.contains(Symbol(x)) <==> (label_ids(closed@.subrange(0, i + 1)).contains(x)
            && !label_ids(open@).contains(x)) by {
            lemma_push_contains_u32(label_ids(pre), l.0, x);
            if res@.contains(Symbol(x)) && res@ != r0 {
                let q = choose|q: int| 0 <= q < res@.len() && res@[q] == Symbol(x);
                if q < r0.len() {
                    assert(r0[q] == Symbol(x));
                }
            }
            if res@ != r0 && (r0.contains(Symbol(x)) || x == l.0) {
                if x == l.0 {
                    assert(res@[r0.len() as int] == Symbol(x));
                } else {
                    let q = choose|q: int| 0 <= q < r0.len() && r0[q] == Symbol(x);
                    assert(res@[q] == Symbol(x));
                }
            }
        }
        i = i + 1;
    }
    assert(closed@.subrange(0, closed.len() as int) =~= closed@);
    Ok(res)
}

proof fn lemma_push_contains_u32(s: Seq<u32>, x: u32, v: u32)
    ensures
        s.push(x).contains(v) <==> (s.contains(v) || v == x),
{
    if v == x {
        assert(s.push(x)[s.len() as int] == x);
    }
    if s.contains(v) {
        let k = choose|k: int| 0 <= k < s.len() && s[k] == v;
        assert(s.push(x)[k] == v);
    }
    if s.push(x).contains(v) {
        let k = choose|k: int| 0 <= k < s.push(x).len() && s.push(x)[k] == v;
        if k < s.len() {
            assert(s[k] == v);
        }
    }
}

/// Two sorted rows agreeing before position `i`, where `a` has a label
/// that `b` lacks or has a larger one: that label is in `a` only, and the
/// two agree on every smaller label.
proof fn lemma_first_difference<A, B>(a: Seq<Row<A>>, b: Seq<Row<B>>, i: int)
    requires
        labels_sorted(a),
        labels_sorted(b),
        0 <= i < a.len(),
        i <= b.len(),
        forall|k: int| 0 <= k < i ==> a[k].label.0 == b[k].label.0,
        i < b.len() ==> a[i].label.0 < b[i].label.0,
    ensures
        label_ids(a).contains(a[i].label.0),
        !label_ids(b).contains(a[i].label.0),
        forall|k: u32| k < a[i].label.0 ==> (label_ids(a).contains(k) <==> label_ids(b).contains(k)),
{
    let l = a[i].label.0;
    assert(label_ids(a)[i] == l);
    if label_ids(b).contains(l) {
        let j = choose|j: int| 0 <= j < label_ids(b).len() && label_ids(b)[j] == l;
        if j < i {
            assert(a[j].label.0 == b[j].label.0);
        } else {
            assert(b[i].label.0 <= b[j].label.0);
        }
    }
    assert forall|k: u32| k < l implies (label_ids(a).contains(k) <==> label_ids(b).contains(k)) by {
        if label_ids(a).contains(k) {
            let j = choose|j: int| 0 <= j < label_ids(a).len() && label_ids(a)[j] == k;
            if j >= i {
                assert(a[i].label.0 <= a[j].label.0);
            }
            assert(label_ids(b)[j] == k);
        }
        if label_ids(b).contains(k) {
            let j = choose|j: int| 0 <= j < label_ids(b).len() && label_ids(b)[j] == k;
            if j >= i {
                assert(b[i].label.0 <= b[j].label.0);
            }
            assert(label_ids(a)[j] == k);
        }
    }
}

} // verus!
