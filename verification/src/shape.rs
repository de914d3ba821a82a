//! Shape algebra: the mathematical model of tensor dimension lists and of
//! the index rows produced by routing.
//!
//! A shape is a `Seq<usize>`; broadcasting follows the usual right-aligned
//! convention (missing leading axes count as 1, an axis of extent 1
//! stretches to the other operand's extent).

use vstd::prelude::*;

use vstd::seq_lib::*;
use vstd::set_lib::{lemma_int_range, lemma_len_subset, set_int_range};

verus! {

/// Number of elements a shape describes.
pub open spec fn prod(s: Seq<usize>) -> int
    decreases s.len(),
{
    if s.len() == 0 {
        1
    } else {
        (s[0] as int) * prod(s.skip(1))
    }
}

pub proof fn lemma_prod1(a: usize)
    ensures
        prod(seq![a]) == a as int,
{
    assert(seq![a].skip(1) =~= Seq::<usize>::empty());
    assert(prod(Seq::<usize>::empty()) == 1);
}

pub proof fn lemma_prod2(a: usize, b: usize)
    ensures
        prod(seq![a, b]) == (a as int) * (b as int),
{
    assert(seq![a, b].skip(1) =~= seq![b]);
    lemma_prod1(b);
}

pub proof fn lemma_prod3(a: usize, b: usize, c: usize)
    ensures
        prod(seq![a, b, c]) == (a as int) * ((b as int) * (c as int)),
{
    assert(seq![a, b, c].skip(1) =~= seq![b, c]);
    lemma_prod2(b, c);
}

pub proof fn lemma_prod4(a: usize, b: usize, c: usize, d: usize)
    ensures
        prod(seq![a, b, c, d]) == (a as int) * ((b as int) * ((c as int) * (d as int))),
{
    assert(seq![a, b, c, d].skip(1) =~= seq![b, c, d]);
    lemma_prod3(b, c, d);
}

/// Rank of the broadcast result of two shapes.
pub open spec fn bc_len(a: Seq<usize>, b: Seq<usize>) -> int {
    if a.len() >= b.len() {
        a.len() as int
    } else {
        b.len() as int
    }
}

/// Extent of shape `d` at position `i` of a right-aligned frame of rank `n`.
pub open spec fn pad_get(d: Seq<usize>, n: int, i: int) -> int {
    if i < n - d.len() {
        1
    } else {
        d[i - (n - d.len())] as int
    }
}

/// The two extents at position `i` agree or one of them is 1.
pub open spec fn bc_ok_at(a: Seq<usize>, b: Seq<usize>, i: int) -> bool {
    let n = bc_len(a, b);
    pad_get(a, n, i) == pad_get(b, n, i) || pad_get(a, n, i) == 1 || pad_get(b, n, i) == 1
}

pub open spec fn broadcastable(a: Seq<usize>, b: Seq<usize>) -> bool {
    forall|i: int| 0 <= i < bc_len(a, b) ==> #[trigger] bc_ok_at(a, b, i)
}

/// Extent of the broadcast result at position `i`.
pub open spec fn bc_at(a: Seq<usize>, b: Seq<usize>, i: int) -> usize {
    let n = bc_len(a, b);
    if pad_get(a, n, i) == 1 {
        pad_get(b, n, i) as usize
    } else {
        pad_get(a, n, i) as usize
    }
}

pub open spec fn broadcast_shape(a: Seq<usize>, b: Seq<usize>) -> Seq<usize> {
    Seq::new(bc_len(a, b) as nat, |i: int| bc_at(a, b, i))
}

/// When `b` right-aligns into `a` with every axis equal or 1, the
/// broadcast result is `a` itself.  This covers a scalar (`b` empty), a
/// per-row vector against a matrix, and an axis of extent 1 against a
/// full axis.
pub proof fn lemma_bc_suffix(a: Seq<usize>, b: Seq<usize>)
    requires
        b.len() <= a.len(),
        forall|j: int|
            0 <= j < b.len() ==> #[trigger] (b[j] as int) == a[a.len() - b.len() + j] as int || (b[
                j
            ] as int) == 1,
    ensures
        broadcastable(a, b),
        broadcast_shape(a, b) =~= a,
{
    let n = bc_len(a, b);
    assert(n == a.len());
    assert forall|i: int| 0 <= i < n implies #[trigger] bc_ok_at(a, b, i) by {
        if i >= n - b.len() {
            let j = i - (n - b.len());
            assert((b[j] as int) == a[i] as int || (b[j] as int) == 1);
        }
    }
    assert forall|i: int| 0 <= i < n implies #[trigger] broadcast_shape(a, b)[i] == a[i] by {
        if i >= n - b.len() {
            let j = i - (n - b.len());
            assert((b[j] as int) == a[i] as int || (b[j] as int) == 1);
        }
    }
}

/// Broadcast of a column against a row gives the full matrix.
pub proof fn lemma_bc_outer(m: usize, n: usize)
    ensures
        broadcastable(seq![m, 1usize], seq![1usize, n]),
        broadcast_shape(seq![m, 1usize], seq![1usize, n]) =~= seq![m, n],
{
    let a = seq![m, 1usize];
    let b = seq![1usize, n];
    assert(bc_ok_at(a, b, 0));
    assert(bc_ok_at(a, b, 1));
    assert forall|i: int| 0 <= i < bc_len(a, b) implies #[trigger] bc_ok_at(a, b, i) by {
        assert(i == 0 || i == 1);
    }
    assert(broadcast_shape(a, b)[0] == m);
    assert(broadcast_shape(a, b)[1] == n);
}

/// Every index in the row lies below `m`.
pub open spec fn row_in_range(r: Seq<u32>, m: int) -> bool {
    forall|i: int| 0 <= i < r.len() ==> (#[trigger] r[i] as int) < m
}

/// No index occurs twice in the row.
pub open spec fn row_distinct(r: Seq<u32>) -> bool {
    forall|i: int, j: int| 0 <= i < j < r.len() ==> r[i] != r[j]
}

/// The row is a permutation of `0 .. m`: length `m`, in range, distinct.
pub open spec fn perm_row(r: Seq<u32>, m: int) -> bool {
    &&& r.len() == m
    &&& row_in_range(r, m)
    &&& row_distinct(r)
}

/// A subset of a finite set with the same cardinality is the set
/// itself.
pub proof fn lemma_subset_same_len_equal<A>(s1: Set<A>, s2: Set<A>)
    requires
        s1.subset_of(s2),
        s2.finite(),
        s1.len() == s2.len(),
    ensures
        s1 =~= s2,
{
    assert forall|x: A| s2.contains(x) implies s1.contains(x) by {
        if !s1.contains(x) {
            assert(s1.subset_of(s2.remove(x)));
            lemma_len_subset(s1, s2.remove(x));
            assert(s2.remove(x).len() == s2.len() - 1);
        }
    }
}

/// A permutation of `0 .. m` contains every value below `m`.
pub proof fn lemma_perm_row_contains_all(r: Seq<u32>, m: int)
    requires
        perm_row(r, m),
    ensures
        forall|x: u32| (x as int) < m ==> r.contains(x),
{
    broadcast use vstd::seq_lib::seq_to_set_is_finite;

    let ri = r.map_values(|v: u32| v as int);
    assert(ri.no_duplicates()) by {
        assert forall|i: int, j: int|
            0 <= i < ri.len() && 0 <= j < ri.len() && i != j implies ri[i] != ri[j] by {
            assert(r[i] != r[j]);
        }
    }
    assert(ri.to_set().subset_of(set_int_range(0, m))) by {
        assert forall|v: int| ri.to_set().contains(v) implies set_int_range(0, m).contains(v) by {
            let i = choose|i: int| 0 <= i < ri.len() && ri[i] == v;
            assert((r[i] as int) < m);
        }
    }
    ri.unique_seq_to_set();
    lemma_int_range(0, m);
    lemma_subset_same_len_equal(ri.to_set(), set_int_range(0, m));
    assert forall|x: u32| (x as int) < m implies r.contains(x) by {
        assert(set_int_range(0, m).contains(x as int));
        assert(ri.to_set().contains(x as int));
        assert(ri.contains(x as int));
        let i = choose|i: int| 0 <= i < ri.len() && ri[i] == x as int;
        assert(r[i] == x);
    }
}

/// The group an expert index belongs to, for a group width `gs`.
pub open spec fn group_of(x: u32, gs: int) -> int
    recommends
        gs > 0,
{
    (x as int) / gs
}

/// The expert index `x` falls in one of the groups listed in `allowed`.
pub open spec fn expert_in_groups(x: u32, gs: int, allowed: Seq<u32>) -> bool {
    exists|j: int| 0 <= j < allowed.len() && group_of(x, gs) == #[trigger] allowed[j] as int
}

/// Every index of `r` falls in a group listed in `allowed`.
pub open spec fn row_groups_within(r: Seq<u32>, gs: int, allowed: Seq<u32>) -> bool {
    forall|i: int| 0 <= i < r.len() ==> expert_in_groups(#[trigger] r[i], gs, allowed)
}

} // verus!
