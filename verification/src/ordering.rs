//! Selecting positions of a sequence and arranging them in sort order.
//!
//! A query selects the positions of the trades it matches, in increasing
//! order, and then arranges them by a sort key. Equal keys keep the order of
//! their positions, so the arrangement is unique: it is the one sequence that
//! holds exactly the selected positions and in which each position comes
//! before every later one (see `lemma_arrangement_unique`).
use vstd::prelude::*;
use crate::types::SortOrder;

verus! {

/// The positions below `n` at which `pred` holds, in increasing order.
pub open spec fn positions_where(n: nat, pred: spec_fn(int) -> bool) -> Seq<usize>
    decreases n,
{
    if n == 0 {
        Seq::empty()
    } else {
        let before = positions_where((n - 1) as nat, pred);
        if pred(n - 1) {
            before.push((n - 1) as usize)
        } else {
            before
        }
    }
}

/// Strictly increasing, so without repetition.
pub open spec fn increasing(s: Seq<usize>) -> bool {
    forall|i: int, j: int| 0 <= i < j < s.len() ==> s[i] < s[j]
}

/// `positions_where` holds exactly the positions below `n` where `pred` holds,
/// each once, in increasing order.
pub proof fn lemma_positions_where(n: nat, pred: spec_fn(int) -> bool)
    requires
        n <= usize::MAX + 1,
    ensures
        forall|p: usize| #[trigger]
            positions_where(n, pred).contains(p) <==> p < n && pred(p as int),
        increasing(positions_where(n, pred)),
        forall|i: int|
            0 <= i < positions_where(n, pred).len() ==> #[trigger] positions_where(n, pred)[i] < n,
        positions_where(n, pred).len() <= n,
    decreases n,
{
    if n > 0 {
        lemma_positions_where((n - 1) as nat, pred);
        let before = positions_where((n - 1) as nat, pred);
        if pred(n - 1) {
            let after = before.push((n - 1) as usize);
            assert forall|p: usize| #[trigger] after.contains(p) <==> p < n && pred(p as int) by {
                if p == n - 1 {
                    assert(after[after.len() - 1] == p);
                } else {
                    if after.contains(p) {
                        let k = choose|k: int| 0 <= k < after.len() && after[k] == p;
                        if k == after.len() - 1 {
                            assert(false);
                        }
                        assert(before[k] == p);
                        assert(before.contains(p));
                    }
                    if p < n && pred(p as int) {
                        assert(before.contains(p));
                        let k = choose|k: int| 0 <= k < before.len() && before[k] == p;
                        assert(after[k] == p);
                    }
                }
            }
            assert forall|i: int, j: int| 0 <= i < j < after.len() implies after[i] < after[j] by {
                if j == after.len() - 1 {
                    assert(before[i] < n - 1);
                }
            }
        }
    }
}

/// Whether the element at position `a`, with sort key `ka`, comes before the
/// element at position `b`, with key `kb`: by key in the given order, and
/// by position where the keys are equal.
pub open spec fn precedes(ka: int, a: int, kb: int, b: int, order: SortOrder) -> bool {
    if ka == kb {
        a < b
    } else {
        match order {
            SortOrder::Ascending => ka < kb,
            SortOrder::Descending => ka > kb,
        }
    }
}

/// `s` lists each element of `members` once, in sort order.
pub open spec fn is_arrangement(
    s: Seq<usize>,
    members: Seq<usize>,
    key: spec_fn(usize) -> int,
    order: SortOrder,
) -> bool {
    &&& forall|p: usize| #[trigger] s.contains(p) <==> members.contains(p)
    &&& forall|i: int, j: int|
        0 <= i < j < s.len() ==> precedes(
            key(s[i]),
            s[i] as int,
            key(s[j]),
            s[j] as int,
            order,
        )
}

/// The positions of `members` in sort order.
pub open spec fn arrangement(members: Seq<usize>, key: spec_fn(usize) -> int, order: SortOrder) -> Seq<
    usize,
> {
    choose|s: Seq<usize>| is_arrangement(s, members, key, order)
}

/// Two arrangements of the same positions are equal: the sort order with
/// ties broken by position leaves no choice.
pub proof fn lemma_arrangements_equal(
    s1: Seq<usize>,
    s2: Seq<usize>,
    members: Seq<usize>,
    key: spec_fn(usize) -> int,
    order: SortOrder,
)
    requires
        is_arrangement(s1, members, key, order),
        is_arrangement(s2, members, key, order),
    ensures
        s1 == s2,
    decreases s1.len(),
{
    if s1.len() == 0 {
        if s2.len() > 0 {
            assert(s2.contains(s2[0]));
            assert(members.contains(s2[0]));
            assert(s1.contains(s2[0]));
        }
        assert(s1 =~= s2);
    } else {
        assert(s1.contains(s1[0]));
        assert(s2.contains(s1[0]));
        let j = choose|j: int| 0 <= j < s2.len() && s2[j] == s1[0];
        assert(s2.contains(s2[0]));
        assert(s1.contains(s2[0]));
        let i = choose|i: int| 0 <= i < s1.len() && s1[i] == s2[0];
        if i > 0 && j > 0 {
            assert(precedes(key(s1[0]), s1[0] as int, key(s1[i]), s1[i] as int, order));
            assert(precedes(key(s2[0]), s2[0] as int, key(s2[j]), s2[j] as int, order));
            assert(false);
        }
        assert(s1[0] == s2[0]);
        let t1 = s1.drop_first();
        let t2 = s2.drop_first();
        assert forall|p: usize| #[trigger] t1.contains(p) <==> t2.contains(p) by {
            if t1.contains(p) {
                let k = choose|k: int| 0 <= k < t1.len() && t1[k] == p;
                assert(s1[k + 1] == p);
                assert(s1.contains(p));
                assert(s2.contains(p));
                let m = choose|m: int| 0 <= m < s2.len() && s2[m] == p;
                if m == 0 {
                    assert(precedes(key(s1[0]), s1[0] as int, key(s1[k + 1]), s1[k + 1] as int, order));
                    assert(false);
                }
                assert(t2[m - 1] == p);
            }
            if t2.contains(p) {
                let k = choose|k: int| 0 <= k < t2.len() && t2[k] == p;
                assert(s2[k + 1] == p);
                assert(s2.contains(p));
                assert(s1.contains(p));
                let m = choose|m: int| 0 <= m < s1.len() && s1[m] == p;
                if m == 0 {
                    assert(precedes(key(s2[0]), s2[0] as int, key(s2[k + 1]), s2[k + 1] as int, order));
                    assert(false);
                }
                assert(t1[m - 1] == p);
            }
        }
        assert(is_arrangement(t1, t2, key, order));
        assert(is_arrangement(t2, t2, key, order));
        lemma_arrangements_equal(t1, t2, t2, key, order);
        assert(s1 =~= seq![s1[0]] + t1);
        assert(s2 =~= seq![s2[0]] + t2);
    }
}

/// The arrangement that `s` is, whenever `s` is one.
pub proof fn lemma_arrangement_unique(
    s: Seq<usize>,
    members: Seq<usize>,
    key: spec_fn(usize) -> int,
    order: SortOrder,
)
    requires
        is_arrangement(s, members, key, order),
    ensures
        arrangement(members, key, order) == s,
{
    let c = arrangement(members, key, order);
    assert(is_arrangement(c, members, key, order));
    lemma_arrangements_equal(c, s, members, key, order);
}

/// Inserting the next member `members[i]` into an arrangement of the
/// members before it, at the first position whose key sorts after its key,
/// gives an arrangement of the members up to it.
pub proof fn lemma_insert_keeps_arrangement(
    r: Seq<usize>,
    members: Seq<usize>,
    i: int,
    p: int,
    key: spec_fn(usize) -> int,
    order: SortOrder,
)
    requires
        0 <= i < members.len(),
        0 <= p <= r.len(),
        increasing(members),
        is_arrangement(r, members.take(i), key, order),
        forall|q: int| 0 <= q < p ==> !sorts_after(key(#[trigger] r[q]), key(members[i]), order),
        p < r.len() ==> sorts_after(key(r[p]), key(members[i]), order),
    ensures
        is_arrangement(r.insert(p, members[i]), members.take(i + 1), key, order),
{
    let x = members[i];
    let r2 = r.insert(p, x);
    let m1 = members.take(i);
    let m2 = members.take(i + 1);
    assert(m2 =~= m1.push(x));
    // every element of r is a member taken before x, so it lies before x
    assert forall|q: int| 0 <= q < r.len() implies (#[trigger] r[q]) < x by {
        assert(r.contains(r[q]));
        assert(m1.contains(r[q]));
        let k = choose|k: int| 0 <= k < m1.len() && m1[k] == r[q];
        assert(members[k] == r[q]);
    }
    // every element of r from position p on sorts after x
    assert forall|q: int| p <= q < r.len() implies (match order {
        SortOrder::Ascending => key(#[trigger] r[q]) > key(x),
        SortOrder::Descending => key(r[q]) < key(x),
    }) by {
        if q > p {
            assert(precedes(key(r[p]), r[p] as int, key(r[q]), r[q] as int, order));
        }
    }
    assert forall|y: usize| #[trigger] r2.contains(y) <==> m2.contains(y) by {
        if r2.contains(y) {
            let k = choose|k: int| 0 <= k < r2.len() && r2[k] == y;
            if k < p {
                assert(r.contains(r[k]));
            } else if k > p {
                assert(r.contains(r[k - 1]));
            } else {
                assert(m2[i] == y);
            }
            if y != x {
                assert(m1.contains(y));
                let j = choose|j: int| 0 <= j < m1.len() && m1[j] == y;
                assert(m2[j] == y);
            } else {
                assert(m2[i] == y);
            }
        }
        if m2.contains(y) {
            let k = choose|k: int| 0 <= k < m2.len() && m2[k] == y;
            if k == i {
                assert(r2[p] == y);
            } else {
                assert(m1[k] == y);
                assert(m1.contains(y));
                assert(r.contains(y));
                let j = choose|j: int| 0 <= j < r.len() && r[j] == y;
                if j < p {
                    assert(r2[j] == y);
                } else {
                    assert(r2[j + 1] == y);
                }
            }
        }
    }
    assert forall|a: int, b: int| 0 <= a < b < r2.len() implies precedes(
        key(r2[a]),
        r2[a] as int,
        key(r2[b]),
        r2[b] as int,
        order,
    ) by {
        if b < p {
            assert(r2[a] == r[a] && r2[b] == r[b]);
        } else if b == p {
            assert(r2[a] == r[a] && r2[b] == x);
            assert(r[a] < x);
        } else if a < p {
            assert(r2[a] == r[a] && r2[b] == r[b - 1]);
        } else if a == p {
            assert(r2[a] == x && r2[b] == r[b - 1]);
        } else {
            assert(r2[a] == r[a - 1] && r2[b] == r[b - 1]);
        }
    }
}


/// Whether key `k` sorts after key `kx` in `order`.
pub open spec fn sorts_after(k: int, kx: int, order: SortOrder) -> bool {
    match order {
        SortOrder::Ascending => k > kx,
        SortOrder::Descending => k < kx,
    }
}

/// The first position of `s` whose key sorts after `kx`, or the length of `s`.
pub open spec fn insertion_point(s: Seq<usize>, key: spec_fn(usize) -> int, kx: int, order: SortOrder) -> nat
    decreases s.len(),
{
    if s.len() == 0 {
        0
    } else if sorts_after(key(s[0]), kx, order) {
        0
    } else {
        1 + insertion_point(s.drop_first(), key, kx, order)
    }
}

proof fn lemma_insertion_point(s: Seq<usize>, key: spec_fn(usize) -> int, kx: int, order: SortOrder)
    ensures
        insertion_point(s, key, kx, order) <= s.len(),
        forall|q: int|
            0 <= q < insertion_point(s, key, kx, order) ==> !sorts_after(key(#[trigger] s[q]), kx, order),
        insertion_point(s, key, kx, order) < s.len() ==> sorts_after(
            key(s[insertion_point(s, key, kx, order) as int]),
            kx,
            order,
        ),
    decreases s.len(),
{
    if s.len() > 0 && !sorts_after(key(s[0]), kx, order) {
        lemma_insertion_point(s.drop_first(), key, kx, order);
        assert forall|q: int| 0 <= q < insertion_point(s, key, kx, order) implies !sorts_after(key(#[trigger] s[q]), kx, order) by {
            if q > 0 {
                assert(s[q] == s.drop_first()[q - 1]);
            }
        }
    }
}

/// An arrangement of the first `i` members, built by inserting them one by one.
proof fn arrange_prefix(members: Seq<usize>, key: spec_fn(usize) -> int, order: SortOrder, i: int) -> (s: Seq<usize>)
    requires
        increasing(members),
        0 <= i <= members.len(),
    ensures
        is_arrangement(s, members.take(i), key, order),
    decreases i,
{
    if i == 0 {
        let s = Seq::<usize>::empty();
        assert(is_arrangement(s, members.take(0), key, order));
        s
    } else {
        let s0 = arrange_prefix(members, key, order, i - 1);
        let kx = key(members[i - 1]);
        lemma_insertion_point(s0, key, kx, order);
        let p = insertion_point(s0, key, kx, order) as int;
        lemma_insert_keeps_arrangement(s0, members, i - 1, p, key, order);
        s0.insert(p, members[i - 1])
    }
}

/// Members in increasing order have an arrangement, so `arrangement` is one.
pub proof fn lemma_arrangement_exists(members: Seq<usize>, key: spec_fn(usize) -> int, order: SortOrder)
    requires
        increasing(members),
    ensures
        is_arrangement(arrangement(members, key, order), members, key, order),
{
    let s = arrange_prefix(members, key, order, members.len() as int);
    assert(members.take(members.len() as int) =~= members);
    assert(is_arrangement(s, members, key, order));
}

} // verus!
