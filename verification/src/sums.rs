//! Sums over the rows of a table, and how they move when a row changes.

use vstd::prelude::*;

verus! {

/// The sum of `f` over the rows of `rows`.
pub open spec fn sum_of<T>(rows: Seq<T>, f: spec_fn(T) -> int) -> int
    decreases rows.len(),
{
    if rows.len() == 0 {
        0
    } else {
        sum_of(rows.drop_last(), f) + f(rows.last())
    }
}

/// A new row adds its own amount.
pub proof fn lemma_sum_push<T>(rows: Seq<T>, f: spec_fn(T) -> int, row: T)
    ensures
        sum_of(rows.push(row), f) == sum_of(rows, f) + f(row),
{
    assert(rows.push(row).drop_last() =~= rows);
}

/// Rewriting one row moves the sum by the difference of its amounts.
pub proof fn lemma_sum_update<T>(rows: Seq<T>, f: spec_fn(T) -> int, i: int, row: T)
    requires
        0 <= i < rows.len(),
    ensures
        sum_of(rows.update(i, row), f) == sum_of(rows, f) - f(rows[i]) + f(row),
    decreases rows.len(),
{
    let after = rows.update(i, row);
    if i == rows.len() - 1 {
        assert(after.drop_last() =~= rows.drop_last());
    } else {
        lemma_sum_update(rows.drop_last(), f, i, row);
        assert(after.drop_last() =~= rows.drop_last().update(i, row));
    }
}

/// Rows that agree on `f` one by one have the same sum.
pub proof fn lemma_sum_same<T>(a: Seq<T>, b: Seq<T>, f: spec_fn(T) -> int)
    requires
        a.len() == b.len(),
        forall|k: int| 0 <= k < a.len() ==> f(#[trigger] a[k]) == f(b[k]),
    ensures
        sum_of(a, f) == sum_of(b, f),
    decreases a.len(),
{
    if a.len() > 0 {
        lemma_sum_same(a.drop_last(), b.drop_last(), f);
    }
}

/// Copies a vector of plain values.
pub fn copy_vec<T: Copy>(v: &Vec<T>) -> (r: Vec<T>)
    ensures
        r@ == v@,
{
    let mut r: Vec<T> = Vec::new();
    let mut i: usize = 0;
    while i < v.len()
        invariant
            i <= v.len(),
            r@ == v@.take(i as int),
        decreases v.len() - i,
    {
        r.push(v[i]);
        assert(r@ =~= v@.take(i + 1));
        i += 1;
    }
    assert(v@.take(i as int) =~= v@);
    r
}

} // verus!
