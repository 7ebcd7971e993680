//! The override merge: a default descriptor set combined with a declared one,
//! where a declared descriptor replaces the default at its status.

use vstd::prelude::*;
use crate::descriptor::{rank, same_status, status_before, views, DescriptorView, ResponseDescriptor};

verus! {

/// Strictly ascending by status, so no status occurs twice.
pub open spec fn strictly_ascending(s: Seq<DescriptorView>) -> bool {
    forall|i: int, j: int| 0 <= i < j < s.len() ==> rank(s[i].status) < rank(s[j].status)
}

/// No status occurs twice.
pub open spec fn distinct_statuses(s: Seq<DescriptorView>) -> bool {
    forall|i: int, j: int| 0 <= i < j < s.len() ==> s[i].status != s[j].status
}

/// The last descriptor of `s` with status `k`, if any.
pub open spec fn lookup(s: Seq<DescriptorView>, k: Option<u16>) -> Option<DescriptorView>
    decreases s.len(),
{
    if s.len() == 0 {
        None
    } else if s.last().status == k {
        Some(s.last())
    } else {
        lookup(s.drop_last(), k)
    }
}

/// What the merge holds at status `k`: the declared descriptor where there is
/// one, else the default one.
pub open spec fn override_at(
    intrinsic: Seq<DescriptorView>,
    extrinsic: Seq<DescriptorView>,
    k: Option<u16>,
) -> Option<DescriptorView> {
    match lookup(extrinsic, k) {
        Some(d) => Some(d),
        None => lookup(intrinsic, k),
    }
}

/// `lookup` finds the last element with the status, and nothing where none has it.
pub proof fn lemma_lookup(s: Seq<DescriptorView>, k: Option<u16>)
    ensures
        lookup(s, k) is None <==> (forall|i: int| 0 <= i < s.len() ==> s[i].status != k),
        lookup(s, k) is Some ==> exists|i: int|
            0 <= i < s.len() && s[i].status == k && lookup(s, k) == Some(s[i]),
    decreases s.len(),
{
    if s.len() > 0 && s.last().status != k {
        lemma_lookup(s.drop_last(), k);
        if lookup(s, k) is Some {
            let i = choose|i: int|
                0 <= i < s.drop_last().len() && s.drop_last()[i].status == k && lookup(
                    s.drop_last(),
                    k,
                ) == Some(s.drop_last()[i]);
            assert(s[i] == s.drop_last()[i]);
        }
        if lookup(s, k) is None {
            assert forall|i: int| 0 <= i < s.len() implies s[i].status != k by {
                if i < s.len() - 1 {
                    assert(s[i] == s.drop_last()[i]);
                }
            }
        }
    }
}

/// In a strictly ascending sequence `lookup` is the element at the status.
pub proof fn lemma_lookup_ascending(s: Seq<DescriptorView>, k: Option<u16>)
    requires
        strictly_ascending(s),
    ensures
        forall|i: int| 0 <= i < s.len() && s[i].status == k ==> lookup(s, k) == Some(s[i]),
        (forall|i: int| 0 <= i < s.len() ==> s[i].status != k) ==> lookup(s, k) is None,
{
    lemma_lookup(s, k);
    assert forall|i: int| 0 <= i < s.len() && s[i].status == k implies lookup(s, k) == Some(s[i]) by {
        let j = choose|j: int| 0 <= j < s.len() && s[j].status == k && lookup(s, k) == Some(s[j]);
        if j < i || i < j {
        }
    }
}

/// Looking up in one more element.
proof fn lemma_lookup_push(s: Seq<DescriptorView>, d: DescriptorView, k: Option<u16>)
    ensures
        lookup(s.push(d), k) == if d.status == k { Some(d) } else { lookup(s, k) },
{
    assert(s.push(d).drop_last() =~= s);
}

/// Where `k` stands in `v`: `Ok(i)` at index `i`, `Err(i)` where it would be
/// inserted to keep the order.
fn find_status(v: &Vec<ResponseDescriptor>, k: Option<u16>) -> (r: Result<usize, usize>)
    requires
        strictly_ascending(views(v@)),
    ensures
        match r {
            Ok(i) => i < v@.len() && v@[i as int].status == k,
            Err(i) => i <= v@.len() && (forall|j: int| 0 <= j < i ==> rank(v@[j].status) < rank(k))
                && (forall|j: int| i <= j < v@.len() ==> rank(k) < rank(v@[j].status)),
        },
{
    let mut lo: usize = 0;
    let mut hi: usize = v.len();
    while lo < hi
        invariant
            0 <= lo <= hi <= v@.len(),
            strictly_ascending(views(v@)),
            forall|j: int| 0 <= j < lo ==> rank(v@[j].status) < rank(k),
            forall|j: int| hi <= j < v@.len() ==> rank(k) < rank(v@[j].status),
        decreases hi - lo,
    {
        let mid = lo + (hi - lo) / 2;
        let s = v[mid].status;
        assert(views(v@)[mid as int] == v@[mid as int]@);
        if same_status(s, k) {
            return Ok(mid);
        } else if status_before(s, k) {
            assert forall|j: int| 0 <= j <= mid implies rank(v@[j].status) < rank(k) by {
                if j < mid {
                    assert(views(v@)[j] == v@[j]@);
                }
            }
            lo = mid + 1;
        } else {
            assert forall|j: int| mid <= j < v@.len() implies rank(k) < rank(v@[j].status) by {
                if j > mid {
                    assert(views(v@)[j] == v@[j]@);
                }
            }
            hi = mid;
        }
    }
    Err(lo)
}

/// Puts `d` in its place in an ascending vector, replacing the descriptor that
/// had its status.
fn upsert(v: &mut Vec<ResponseDescriptor>, d: ResponseDescriptor)
    requires
        strictly_ascending(views(old(v)@)),
    ensures
        strictly_ascending(views(final(v)@)),
        forall|k: Option<u16>|
            lookup(views(final(v)@), k) == if k == d.status {
                Some(d@)
            } else {
                lookup(views(old(v)@), k)
            },
{
    let ghost dv = d@;
    let ghost before = views(v@);
    match find_status(v, d.status) {
        Ok(i) => {
            v.remove(i);
            v.insert(i, d);
            let ghost after = views(v@);
            assert(after =~= before.update(i as int, dv));
            assert(before[i as int] == old(v)@[i as int]@);
            assert forall|a: int, b: int| 0 <= a < b < after.len() implies rank(
                after[a].status,
            ) < rank(after[b].status) by {
                assert(after[a].status == before[a].status);
                assert(after[b].status == before[b].status);
            }
            assert forall|k: Option<u16>|
                lookup(after, k) == if k == dv.status {
                    Some(dv)
                } else {
                    lookup(before, k)
                } by {
                lemma_lookup_ascending(after, k);
                lemma_lookup_ascending(before, k);
                lemma_lookup(before, k);
                if k != dv.status && lookup(before, k) is Some {
                    let j = choose|j: int|
                        0 <= j < before.len() && before[j].status == k && lookup(before, k)
                            == Some(before[j]);
                    assert(after[j] == before[j]);
                }
                if k == dv.status {
                    assert(after[i as int] == dv);
                }
            }
        },
        Err(i) => {
            v.insert(i, d);
            let ghost after = views(v@);
            assert(after =~= before.insert(i as int, dv));
            assert forall|a: int, b: int| 0 <= a < b < after.len() implies rank(
                after[a].status,
            ) < rank(after[b].status) by {
                if b < i {
                } else if b == i {
                    assert(before[a] == old(v)@[a]@);
                } else if a < i {
                    assert(before[a] == old(v)@[a]@);
                    assert(before[b - 1] == old(v)@[b - 1]@);
                } else if a == i {
                    assert(before[b - 1] == old(v)@[b - 1]@);
                }
            }
            assert forall|k: Option<u16>|
                lookup(after, k) == if k == dv.status {
                    Some(dv)
                } else {
                    lookup(before, k)
                } by {
                lemma_lookup_ascending(after, k);
                lemma_lookup_ascending(before, k);
                lemma_lookup(before, k);
                if k != dv.status && lookup(before, k) is Some {
                    let j = choose|j: int|
                        0 <= j < before.len() && before[j].status == k && lookup(before, k)
                            == Some(before[j]);
                    if j < i {
                        assert(after[j] == before[j]);
                    } else {
                        assert(after[j + 1] == before[j]);
                    }
                }
                if k != dv.status && lookup(before, k) is None {
                    assert forall|j: int| 0 <= j < after.len() implies after[j].status != k by {
                        if j < i {
                            assert(after[j] == before[j]);
                        } else if j > i {
                            assert(after[j] == before[j - 1]);
                        }
                    }
                }
                if k == dv.status {
                    assert(after[i as int] == dv);
                }
            }
        },
    }
}

/// Taking the first element off a sequence whose views are `v.skip(n)`.
proof fn lemma_views_after_remove(
    left: Seq<ResponseDescriptor>,
    rest: Seq<ResponseDescriptor>,
    v: Seq<DescriptorView>,
    n: int,
)
    requires
        left.len() > 0,
        rest == left.remove(0),
        0 <= n <= v.len(),
        views(left) == v.skip(n),
    ensures
        n < v.len(),
        left[0]@ == v[n],
        views(rest) == v.skip(n + 1),
{
    assert(views(left).len() == left.len());
    assert(views(left)[0] == left[0]@);
    assert(v.skip(n)[0] == v[n]);
    assert forall|j: int| 0 <= j < rest.len() implies views(rest)[j] == v.skip(n + 1)[j] by {
        assert(views(left)[j + 1] == left[j + 1]@);
        assert(views(rest)[j] == rest[j]@);
        assert(rest[j] == left[j + 1]);
        assert(v.skip(n)[j + 1] == v[n + (j + 1)]);
        assert(v.skip(n + 1)[j] == v[(n + 1) + j]);
    }
    assert(views(rest) =~= v.skip(n + 1));
}

/// Merges `extrinsic` into `intrinsic`: the default descriptors are ordered by
/// status, then each declared descriptor in turn replaces the one at its status
/// (if any) and takes its place in the order.
pub fn merge_descriptors(
    intrinsic: Vec<ResponseDescriptor>,
    extrinsic: Vec<ResponseDescriptor>,
) -> (r: Vec<ResponseDescriptor>)
    requires
        distinct_statuses(views(intrinsic@)),
    ensures
        is_merge_of(views(r@), views(intrinsic@), views(extrinsic@)),
{
    let ghost vi = views(intrinsic@);
    let ghost ve = views(extrinsic@);
    let mut merged: Vec<ResponseDescriptor> = Vec::new();
    // the defaults, ordered by status
    let mut rest = intrinsic;
    let ghost mut n: int = 0;
    assert(views(merged@) =~= Seq::<DescriptorView>::empty());
    while rest.len() > 0
        invariant
            0 <= n <= vi.len(),
            views(rest@) == vi.skip(n),
            strictly_ascending(views(merged@)),
            forall|k: Option<u16>| lookup(views(merged@), k) == lookup(vi.take(n), k),
        decreases rest@.len(),
    {
        let ghost left = rest@;
        let d = rest.remove(0);
        proof {
            lemma_views_after_remove(left, rest@, vi, n);
            assert(d@ == vi[n]);
            assert(vi.take(n + 1) =~= vi.take(n).push(d@));
        }
        upsert(&mut merged, d);
        proof {
            assert forall|k: Option<u16>| lookup(views(merged@), k) == lookup(vi.take(n + 1), k) by {
                lemma_lookup_push(vi.take(n), d@, k);
            }
            n = n + 1;
        }
    }
    assert(vi.take(n) =~= vi) by {
        assert(vi.skip(n).len() == 0);
    }
    // each declared descriptor, in order, takes the place of the one at its status
    let mut rest = extrinsic;
    let ghost mut m: int = 0;
    while rest.len() > 0
        invariant
            0 <= m <= ve.len(),
            views(rest@) == ve.skip(m),
            strictly_ascending(views(merged@)),
            forall|k: Option<u16>| lookup(views(merged@), k) == override_at(vi, ve.take(m), k),
        decreases rest@.len(),
    {
        let ghost left = rest@;
        let d = rest.remove(0);
        proof {
            lemma_views_after_remove(left, rest@, ve, m);
            assert(d@ == ve[m]);
            assert(ve.take(m + 1) =~= ve.take(m).push(d@));
        }
        upsert(&mut merged, d);
        proof {
            assert forall|k: Option<u16>| lookup(views(merged@), k) == override_at(vi, ve.take(m + 1), k) by {
                lemma_lookup_push(ve.take(m), d@, k);
            }
            m = m + 1;
        }
    }
    assert(ve.take(m) =~= ve) by {
        assert(ve.skip(m).len() == 0);
    }
    merged
}

/// `merged` is the override merge of `intrinsic` and `extrinsic`: strictly
/// ascending, holding at each status what `override_at` gives there.
pub open spec fn is_merge_of(
    merged: Seq<DescriptorView>,
    intrinsic: Seq<DescriptorView>,
    extrinsic: Seq<DescriptorView>,
) -> bool {
    &&& strictly_ascending(merged)
    &&& forall|k: Option<u16>| lookup(merged, k) == override_at(intrinsic, extrinsic, k)
}

/// Some status of `s` is `k`.
pub open spec fn has_status(s: Seq<DescriptorView>, k: Option<u16>) -> bool {
    exists|i: int| 0 <= i < s.len() && s[i].status == k
}

/// A declared descriptor always wins at its status: the merge holds, at each
/// status that the declared set has, exactly the declared descriptor, and at
/// each other status of the defaults exactly the default descriptor; nothing
/// else. Where a set has a status twice, its last descriptor there counts.
pub proof fn lemma_override_precedence(
    intrinsic: Seq<DescriptorView>,
    extrinsic: Seq<DescriptorView>,
    merged: Seq<DescriptorView>,
)
    requires
        is_merge_of(merged, intrinsic, extrinsic),
    ensures
        forall|i: int|
            0 <= i < extrinsic.len() && (forall|j: int|
                i < j < extrinsic.len() ==> extrinsic[j].status != extrinsic[i].status) ==> {
                &&& merged.contains(extrinsic[i])
                &&& forall|m: int|
                    0 <= m < merged.len() && merged[m].status == extrinsic[i].status
                        ==> merged[m] == extrinsic[i]
            },
        forall|i: int|
            0 <= i < intrinsic.len() && !has_status(extrinsic, intrinsic[i].status) && (forall|j: int|
                i < j < intrinsic.len() ==> intrinsic[j].status != intrinsic[i].status) ==> {
                &&& merged.contains(intrinsic[i])
                &&& forall|m: int|
                    0 <= m < merged.len() && merged[m].status == intrinsic[i].status
                        ==> merged[m] == intrinsic[i]
            },
        forall|m: int|
            0 <= m < merged.len() ==> extrinsic.contains(merged[m]) || intrinsic.contains(
                merged[m],
            ),
{
    assert forall|i: int|
        0 <= i < extrinsic.len() && (forall|j: int|
            i < j < extrinsic.len() ==> extrinsic[j].status != extrinsic[i].status) implies {
        &&& merged.contains(extrinsic[i])
        &&& forall|m: int|
            0 <= m < merged.len() && merged[m].status == extrinsic[i].status
                ==> merged[m] == extrinsic[i]
    } by {
        let k = extrinsic[i].status;
        lemma_lookup_last_index(extrinsic, i);
        lemma_lookup(merged, k);
        lemma_lookup_ascending(merged, k);
        let m = choose|m: int| 0 <= m < merged.len() && merged[m].status == k && lookup(merged, k) == Some(merged[m]);
        assert(merged[m] == extrinsic[i]);
    }
    assert forall|i: int|
        0 <= i < intrinsic.len() && !has_status(extrinsic, intrinsic[i].status) && (forall|j: int|
            i < j < intrinsic.len() ==> intrinsic[j].status != intrinsic[i].status) implies {
        &&& merged.contains(intrinsic[i])
        &&& forall|m: int|
            0 <= m < merged.len() && merged[m].status == intrinsic[i].status
                ==> merged[m] == intrinsic[i]
    } by {
        let k = intrinsic[i].status;
        lemma_lookup(extrinsic, k);
        lemma_lookup_last_index(intrinsic, i);
        lemma_lookup(merged, k);
        lemma_lookup_ascending(merged, k);
        let m = choose|m: int| 0 <= m < merged.len() && merged[m].status == k && lookup(merged, k) == Some(merged[m]);
        assert(merged[m] == intrinsic[i]);
    }
    assert forall|m: int| 0 <= m < merged.len() implies extrinsic.contains(merged[m])
        || intrinsic.contains(merged[m]) by {
        let k = merged[m].status;
        lemma_lookup_ascending(merged, k);
        lemma_lookup(extrinsic, k);
        lemma_lookup(intrinsic, k);
    }
}

/// The element at `i` is what `lookup` finds when no later one has its status.
proof fn lemma_lookup_last_index(s: Seq<DescriptorView>, i: int)
    requires
        0 <= i < s.len(),
        forall|j: int| i < j < s.len() ==> s[j].status != s[i].status,
    ensures
        lookup(s, s[i].status) == Some(s[i]),
    decreases s.len(),
{
    if i < s.len() - 1 {
        assert(s.drop_last()[i] == s[i]);
        lemma_lookup_last_index(s.drop_last(), i);
    }
}

} // verus!
