//! In-place quick sort over `i32` slices.
//!
//! `povit` partitions a range around its first element and always reports the
//! range's first index back; `sort_helper` then goes on with the part of the
//! range that follows that index. The element that partitioning leaves at the
//! front of a range therefore stays there (see `quick_from`).
use vstd::prelude::*;
use vstd::multiset::Multiset;

verus! {

broadcast use vstd::seq_lib::group_to_multiset_ensures;

/// `s` restricted to positions `lo..hi` is in ascending order.
pub open spec fn sorted_between(s: Seq<i32>, lo: int, hi: int) -> bool {
    forall|i: int, j: int| lo <= i <= j < hi ==> s[i] <= s[j]
}

/// The multiset of the elements at positions `lo..=hi`.
pub open spec fn range_items(s: Seq<i32>, lo: int, hi: int) -> Multiset<i32> {
    s.subrange(lo, hi + 1).to_multiset()
}

/// `s` with the elements at `i` and `j` exchanged.
pub open spec fn swapped(s: Seq<i32>, i: int, j: int) -> Seq<i32> {
    s.update(i, s[j]).update(j, s[i])
}

/// Where the downward scan from `r` stops: at `l`, or at the first position
/// whose element is smaller than the pivot `pv`.
pub open spec fn scan_down(s: Seq<i32>, pv: i32, l: int, r: int) -> int
    decreases r - l,
{
    if l < r && s[r] >= pv {
        scan_down(s, pv, l, r - 1)
    } else {
        r
    }
}

/// Where the upward scan from `l` stops: at `r`, or at the first position
/// whose element is larger than the pivot `pv`.
pub open spec fn scan_up(s: Seq<i32>, pv: i32, l: int, r: int) -> int
    decreases r - l,
{
    if l < r && s[l] <= pv {
        scan_up(s, pv, l + 1, r)
    } else {
        l
    }
}

/// The partition loop: scan down, scan up, exchange the two stopping points
/// when they differ, until the scans meet. Yields the array and the meeting
/// point.
pub open spec fn partition_loop(s: Seq<i32>, pv: i32, l: int, r: int) -> (Seq<i32>, int)
    decreases r - l,
{
    if l < r {
        let r2 = scan_down(s, pv, l, r);
        let l2 = scan_up(s, pv, l, r2);
        if l2 == l && r2 == r {
            // no scan moved; unreachable while `s[l] <= pv`
            (s, l)
        } else {
            let s2 = if l2 != r2 { swapped(s, l2, r2) } else { s };
            proof {
                lemma_scan_down_bounds(s, pv, l, r);
                lemma_scan_up_bounds(s, pv, l, r2);
            }
            partition_loop(s2, pv, l2, r2)
        }
    } else {
        (s, l)
    }
}

/// The array after partitioning `start..=end` around `s[start]`: the loop's
/// result with the meeting point exchanged with `start`.
pub open spec fn partitioned(s: Seq<i32>, start: int, end: int) -> Seq<i32> {
    let (s2, m) = partition_loop(s, s[start], start, end);
    if m != start { swapped(s2, m, start) } else { s2 }
}

pub proof fn lemma_scan_down_bounds(s: Seq<i32>, pv: i32, l: int, r: int)
    requires
        l <= r,
    ensures
        l <= scan_down(s, pv, l, r) <= r,
        scan_down(s, pv, l, r) == l || s[scan_down(s, pv, l, r)] < pv,
        forall|k: int| scan_down(s, pv, l, r) < k <= r ==> #[trigger] s[k] >= pv,
    decreases r - l,
{
    if l < r && s[r] >= pv {
        lemma_scan_down_bounds(s, pv, l, r - 1);
    }
}

pub proof fn lemma_scan_up_bounds(s: Seq<i32>, pv: i32, l: int, r: int)
    requires
        l <= r,
    ensures
        l <= scan_up(s, pv, l, r) <= r,
        scan_up(s, pv, l, r) == r || s[scan_up(s, pv, l, r)] > pv,
        l < r && s[l] <= pv ==> scan_up(s, pv, l, r) > l,
        forall|k: int| l <= k < scan_up(s, pv, l, r) ==> #[trigger] s[k] <= pv,
    decreases r - l,
{
    if l < r && s[l] <= pv {
        lemma_scan_up_bounds(s, pv, l + 1, r);
    }
}

/// Exchanging two elements keeps the multiset of the sequence.
proof fn lemma_swapped_items(s: Seq<i32>, i: int, j: int)
    requires
        0 <= i < s.len(),
        0 <= j < s.len(),
    ensures
        swapped(s, i, j).to_multiset() =~= s.to_multiset(),
{
    broadcast use vstd::multiset::group_multiset_axioms;
    let s1 = s.update(i, s[j]);
    assert(s1.to_multiset() =~= s.to_multiset().insert(s[j]).remove(s[i]));
    assert(swapped(s, i, j).to_multiset() =~= s1.to_multiset().insert(s[i]).remove(s1[j]));
}

/// Exchanging two elements inside `lo..=hi` keeps the multiset of that range
/// and every element outside it.
proof fn lemma_swap_in_range(s: Seq<i32>, lo: int, hi: int, i: int, j: int)
    requires
        0 <= lo <= i <= hi < s.len(),
        lo <= j <= hi,
    ensures
        range_items(swapped(s, i, j), lo, hi) =~= range_items(s, lo, hi),
        swapped(s, i, j).len() == s.len(),
        forall|k: int| 0 <= k < s.len() && (k < lo || k > hi) ==> swapped(s, i, j)[k] == s[k],
{
    let sub = s.subrange(lo, hi + 1);
    assert(swapped(s, i, j).subrange(lo, hi + 1) =~= swapped(sub, i - lo, j - lo));
    lemma_swapped_items(sub, i - lo, j - lo);
}

/// `t` is `s` with `start..=end` split around the element `s[start]`: some
/// slot `m` of the range holds it, nothing before `m` in the range is greater
/// and nothing after `m` in the range is smaller.
pub open spec fn split_around_first(s: Seq<i32>, t: Seq<i32>, start: int, end: int) -> bool {
    exists|m: int| {
        &&& start <= m <= end
        &&& t[m] == s[start]
        &&& forall|k: int| start <= k < m ==> #[trigger] t[k] <= s[start]
        &&& forall|k: int| m < k <= end ==> #[trigger] t[k] >= s[start]
    }
}

/// The partition loop from `l..=r`, inside `start..=end`, with everything in
/// `start..l` no greater and everything in `r+1..=end` no smaller than the
/// pivot: it meets at a slot `m` whose element is no greater than the pivot,
/// with everything before `m` no greater and everything after `m` no smaller,
/// and it never moves the element at `start`.
proof fn lemma_partition_loop_splits(s: Seq<i32>, pv: i32, start: int, end: int, l: int, r: int)
    requires
        0 <= start <= l <= r <= end < s.len(),
        s[l] <= pv,
        forall|k: int| start <= k < l ==> #[trigger] s[k] <= pv,
        forall|k: int| r < k <= end ==> #[trigger] s[k] >= pv,
    ensures
        ({
            let (t, m) = partition_loop(s, pv, l, r);
            &&& l <= m <= r
            &&& t.len() == s.len()
            &&& t[m] <= pv
            &&& t[start] == s[start]
            &&& forall|k: int| start <= k < m ==> #[trigger] t[k] <= pv
            &&& forall|k: int| m < k <= end ==> #[trigger] t[k] >= pv
        }),
    decreases r - l,
{
    if l < r {
        let r2 = scan_down(s, pv, l, r);
        lemma_scan_down_bounds(s, pv, l, r);
        let l2 = scan_up(s, pv, l, r2);
        lemma_scan_up_bounds(s, pv, l, r2);
        if l2 == l && r2 == r {
        } else {
            let s2 = if l2 != r2 { swapped(s, l2, r2) } else { s };
            assert(l2 > l || l2 == r2);
            assert forall|k: int| start <= k < l2 implies #[trigger] s2[k] <= pv by {
                if k < l {
                } else if l2 != r2 {
                    assert(s2[k] == s[k]);
                }
            }
            assert forall|k: int| r2 < k <= end implies #[trigger] s2[k] >= pv by {
                if l2 != r2 {
                    assert(s2[k] == s[k]);
                }
            }
            assert(s2[l2] <= pv);
            lemma_partition_loop_splits(s2, pv, start, end, l2, r2);
            assert(s2[start] == s[start]);
        }
    }
}

/// Partitioning `start..=end` splits the range around its first element:
/// that element lands in some slot of the range, with nothing greater before
/// it and nothing smaller after it.
pub proof fn lemma_partitioned_splits(s: Seq<i32>, start: int, end: int)
    requires
        0 <= start < end < s.len(),
    ensures
        split_around_first(s, partitioned(s, start, end), start, end),
{
    let pv = s[start];
    lemma_partition_loop_splits(s, pv, start, end, start, end);
    let (t, m) = partition_loop(s, pv, start, end);
    let u = partitioned(s, start, end);
    assert(u[m] == pv);
    assert forall|k: int| start <= k < m implies #[trigger] u[k] <= pv by {
        if m != start && k == start {
            assert(u[k] == t[m]);
        } else {
            assert(u[k] == t[k]);
        }
    }
    assert forall|k: int| m < k <= end implies #[trigger] u[k] >= pv by {
        assert(u[k] == t[k]);
    }
}

/// Partitions `arr[start..=end]` around `arr[start]` and returns `start`.
fn povit(arr: &mut [i32], start: usize, end: usize) -> (p: usize)
    requires
        start < end < old(arr)@.len(),
    ensures
        p == start,
        split_around_first(old(arr)@, final(arr)@, start as int, end as int),
        final(arr)@ == partitioned(old(arr)@, start as int, end as int),
        range_items(final(arr)@, start as int, end as int) =~= range_items(old(arr)@, start as int, end as int),
        final(arr)@.len() == old(arr)@.len(),
        forall|k: int| 0 <= k < old(arr)@.len() && (k < start || k > end) ==> final(arr)@[k] == old(arr)@[k],
{
    let ghost s0 = arr@;
    let povit = start;
    let pv = arr[povit];
    let (mut left, mut right) = (start, end);
    while left < right
        invariant
            start <= left <= right <= end < arr@.len(),
            povit == start,
            arr@.len() == s0.len(),
            pv == s0[start as int],
            arr@[start as int] == pv,
            arr@[left as int] <= pv,
            partition_loop(arr@, pv, left as int, right as int) == partition_loop(s0, pv, start as int, end as int),
            range_items(arr@, start as int, end as int) =~= range_items(s0, start as int, end as int),
            forall|k: int| 0 <= k < s0.len() && (k < start || k > end) ==> arr@[k] == s0[k],
        decreases right - left,
    {
        let ghost l0 = left as int;
        let ghost r0 = right as int;
        let ghost a0 = arr@;
        while left < right && arr[right] >= arr[povit]
            invariant
                start <= left <= right <= end < arr@.len(),
                povit == start,
                left == l0,
                arr@ == a0,
                arr@[start as int] == pv,
                scan_down(a0, pv, l0, right as int) == scan_down(a0, pv, l0, r0),
            decreases right,
        {
            right -= 1;
        }
        let ghost rr = right as int;
        assert(scan_down(a0, pv, l0, r0) == rr);
        while left < right && arr[left] <= arr[povit]
            invariant
                start <= l0 <= left <= right <= end < arr@.len(),
                povit == start,
                right == rr,
                arr@ == a0,
                arr@[start as int] == pv,
                scan_up(a0, pv, left as int, rr) == scan_up(a0, pv, l0, rr),
            decreases right - left,
        {
            left += 1;
        }
        assert(scan_up(a0, pv, l0, rr) == left);
        proof {
            lemma_scan_down_bounds(a0, pv, l0, r0);
            lemma_scan_up_bounds(a0, pv, l0, rr);
        }
        if left != right {
            proof {
                lemma_swap_in_range(a0, start as int, end as int, left as int, right as int);
            }
            let a = arr[left];
            let b = arr[right];
            arr[left] = b;
            arr[right] = a;
            assert(arr@ =~= swapped(a0, left as int, right as int));
        }
    }
    if left != povit {
        let ghost a1 = arr@;
        proof {
            lemma_swap_in_range(a1, start as int, end as int, left as int, povit as int);
        }
        let a = arr[left];
        let b = arr[povit];
        arr[left] = b;
        arr[povit] = a;
        assert(arr@ =~= swapped(a1, left as int, povit as int));
    }
    proof {
        lemma_partitioned_splits(s0, start as int, end as int);
    }
    povit
}

/// The multiset of `lo..=hi` is the element at `lo` plus the multiset of `lo+1..=hi`.
proof fn lemma_range_items_split(s: Seq<i32>, lo: int, hi: int)
    requires
        0 <= lo <= hi < s.len(),
    ensures
        range_items(s, lo, hi) =~= range_items(s, lo + 1, hi).insert(s[lo]),
{
    broadcast use vstd::multiset::group_multiset_axioms;
    let tail = s.subrange(lo + 1, hi + 1);
    assert(s.subrange(lo, hi + 1) =~= seq![s[lo]] + tail);
    vstd::seq_lib::lemma_multiset_commutative(seq![s[lo]], tail);
    assert(seq![s[lo]] =~= Seq::<i32>::empty().push(s[lo]));
    assert(Seq::<i32>::empty().to_multiset() =~= Multiset::empty());
}

/// What `sort_helper` makes of `start..=end`: partition the range, then go on
/// with the range that starts one position later.
pub open spec fn quick_from(s: Seq<i32>, start: int, end: int) -> Seq<i32>
    decreases end - start,
{
    if start < end {
        quick_from(partitioned(s, start, end), start + 1, end)
    } else {
        s
    }
}

/// What `sort` makes of a sequence.
pub open spec fn quick_sorted(s: Seq<i32>) -> Seq<i32> {
    if s.len() == 0 { s } else { quick_from(s, 0, s.len() - 1) }
}

/// Partitions `arr[start..=end]` around its first element, then handles the
/// range that follows `start`; ranges with fewer than two elements are left
/// alone.
fn sort_helper(arr: &mut [i32], start: usize, end: usize)
    requires
        end < old(arr)@.len(),
        start <= end + 1,
    ensures
        final(arr)@ == quick_from(old(arr)@, start as int, end as int),
        final(arr)@.len() == old(arr)@.len(),
        forall|k: int| 0 <= k < old(arr)@.len() && (k < start || k > end) ==> final(arr)@[k] == old(arr)@[k],
        start <= end ==> range_items(final(arr)@, start as int, end as int) =~= range_items(old(arr)@, start as int, end as int),
    decreases end + 1 - start,
{
    if start < end {
        let povit_index = povit(arr, start, end);
        let ghost p_arr = arr@;
        if povit_index > 0 {
            sort_helper(arr, start, povit_index - 1);
        }
        assert(arr@ == p_arr);
        sort_helper(arr, povit_index + 1, end);
        proof {
            lemma_range_items_split(p_arr, start as int, end as int);
            lemma_range_items_split(arr@, start as int, end as int);
        }
    }
}

/// Sorts a non-empty slice in place with the quick sort above.
///
/// The result is a rearrangement of the input, and it is `quick_sorted` of
/// the input. It is in ascending order when the input already was, and when
/// the input has at most two elements (`lemma_sort_keeps_ascending`,
/// `lemma_sort_orders_short`); for other inputs the front element that
/// partitioning leaves in each range need not be the least, e.g. `[5, 1, 3]`
/// becomes `[3, 1, 5]`.
pub fn sort(arr: &mut [i32])
    requires
        old(arr)@.len() > 0,
    ensures
        final(arr)@ == quick_sorted(old(arr)@),
        final(arr)@.len() == old(arr)@.len(),
        final(arr)@.to_multiset() =~= old(arr)@.to_multiset(),
{
    let ghost s0 = arr@;
    sort_helper(arr, 0, arr.len() - 1);
    assert(arr@.subrange(0, arr@.len() as int) =~= arr@);
    assert(s0.subrange(0, s0.len() as int) =~= s0);
}

/// The downward scan from `r` runs to `l` when nothing in `l..=r` is smaller
/// than the pivot.
proof fn lemma_scan_down_all_large(s: Seq<i32>, pv: i32, l: int, r: int)
    requires
        0 <= l <= r < s.len(),
        forall|k: int| l <= k <= r ==> pv <= #[trigger] s[k],
    ensures
        scan_down(s, pv, l, r) == l,
    decreases r - l,
{
    if l < r {
        lemma_scan_down_all_large(s, pv, l, r - 1);
    }
}

/// Partitioning a range whose first element is its least changes nothing.
proof fn lemma_partition_least_first(s: Seq<i32>, start: int, end: int)
    requires
        0 <= start < end < s.len(),
        forall|k: int| start <= k <= end ==> s[start] <= #[trigger] s[k],
    ensures
        partitioned(s, start, end) == s,
{
    let pv = s[start];
    lemma_scan_down_all_large(s, pv, start, end);
    assert(scan_up(s, pv, start, start) == start);
    assert(partition_loop(s, pv, start, start) == (s, start));
    assert(partition_loop(s, pv, start, end) == (s, start));
}

proof fn lemma_quick_from_ascending(s: Seq<i32>, start: int, end: int)
    requires
        0 <= start,
        end < s.len(),
        sorted_between(s, start, end + 1),
    ensures
        quick_from(s, start, end) == s,
    decreases end - start,
{
    if start < end {
        lemma_partition_least_first(s, start, end);
        lemma_quick_from_ascending(s, start + 1, end);
    }
}

/// `sort` leaves an input that is already in ascending order unchanged.
pub proof fn lemma_sort_keeps_ascending(s: Seq<i32>)
    requires
        sorted_between(s, 0, s.len() as int),
    ensures
        quick_sorted(s) == s,
{
    if s.len() > 0 {
        lemma_quick_from_ascending(s, 0, s.len() - 1);
    }
}

/// The downward scan from `r` stops at `k` when everything after `k` up to
/// `r` is no smaller than the pivot and `s[k]` is smaller.
proof fn lemma_scan_down_stops_at(s: Seq<i32>, pv: i32, l: int, r: int, k: int)
    requires
        l < k <= r,
        forall|j: int| k < j <= r ==> pv <= #[trigger] s[j],
        s[k] < pv,
    ensures
        scan_down(s, pv, l, r) == k,
    decreases r - l,
{
    if r > k {
        lemma_scan_down_stops_at(s, pv, l, r - 1, k);
    }
}

/// The upward scan from `l` runs to `r` when nothing in `l..r` is greater
/// than the pivot.
proof fn lemma_scan_up_runs_to(s: Seq<i32>, pv: i32, l: int, r: int)
    requires
        l <= r,
        forall|j: int| l <= j < r ==> #[trigger] s[j] <= pv,
    ensures
        scan_up(s, pv, l, r) == r,
    decreases r - l,
{
    if l < r {
        lemma_scan_up_runs_to(s, pv, l + 1, r);
    }
}

/// Sorting `start..=end` when the part before `start` is in order and no
/// greater than anything after it, and the range is a strictly decreasing
/// run `start..=k` followed by an ascending run whose elements all exceed the
/// first run's: everything up to `end` comes out in ascending order.
proof fn lemma_quick_from_falling_then_rising(s: Seq<i32>, start: int, k: int, end: int)
    requires
        0 <= start <= k <= end < s.len(),
        sorted_between(s, 0, start),
        forall|x: int, y: int| 0 <= x < start <= y <= end ==> s[x] <= s[y],
        forall|x: int, y: int| start <= x < y <= k ==> s[x] > s[y],
        sorted_between(s, k + 1, end + 1),
        forall|x: int, y: int| start <= x <= k < y <= end ==> s[x] < s[y],
    ensures
        sorted_between(quick_from(s, start, end), 0, end + 1),
    decreases end - start,
{
    if start == end {
    } else if k == start {
        lemma_quick_from_ascending(s, start, end);
    } else {
        let pv = s[start];
        lemma_scan_down_stops_at(s, pv, start, end, k);
        lemma_scan_up_runs_to(s, pv, start, k);
        assert(partition_loop(s, pv, k, k) == (s, k));
        assert(partition_loop(s, pv, start, end) == (s, k));
        let t = swapped(s, k, start);
        assert(partitioned(s, start, end) == t);
        let k2 = if k - 1 >= start + 1 { k - 1 } else { start + 1 };
        assert forall|x: int, y: int| 0 <= x < start + 1 <= y <= end implies t[x] <= t[y] by {
            if x == start {
                assert(t[x] == s[k]);
                if y == k {
                    assert(t[y] == s[start]);
                } else {
                    assert(t[y] == s[y]);
                }
            } else {
                if y == k {
                    assert(t[y] == s[start]);
                } else {
                    assert(t[y] == s[y]);
                }
            }
        }
        assert(sorted_between(t, 0, start + 1)) by {
            assert forall|x: int, y: int| 0 <= x <= y < start + 1 implies t[x] <= t[y] by {
                if y == start && x < start {
                    assert(s[x] <= s[k]);
                }
            }
        }
        assert forall|x: int, y: int| start + 1 <= x < y <= k2 implies t[x] > t[y] by {
            if y == k {
                assert(t[y] == s[start]);
            }
        }
        assert(sorted_between(t, k2 + 1, end + 1)) by {
            assert forall|x: int, y: int| k2 + 1 <= x <= y < end + 1 implies t[x] <= t[y] by {
                if x == k {
                    assert(t[x] == s[start]);
                    if y > k {
                        assert(s[start] < s[y]);
                    }
                }
            }
        }
        assert forall|x: int, y: int| start + 1 <= x <= k2 < y <= end implies t[x] < t[y] by {
            if x == k {
                assert(t[x] == s[start]);
            } else if y == k {
                assert(t[y] == s[start]);
                assert(s[start] > s[x]);
            }
        }
        lemma_quick_from_falling_then_rising(t, start + 1, k2, end);
    }
}

/// `sort` puts every strictly decreasing input in ascending order: e.g.
/// `[4, 3, 2, 1]` becomes `[1, 2, 3, 4]`.
pub proof fn lemma_sort_orders_descending(s: Seq<i32>)
    requires
        forall|i: int, j: int| 0 <= i < j < s.len() ==> s[i] > s[j],
    ensures
        sorted_between(quick_sorted(s), 0, s.len() as int),
{
    if s.len() > 0 {
        lemma_quick_from_falling_then_rising(s, 0, s.len() - 1, s.len() - 1);
    }
}

/// `sort` puts an input of at most two elements in ascending order.
pub proof fn lemma_sort_orders_short(s: Seq<i32>)
    requires
        s.len() <= 2,
    ensures
        sorted_between(quick_sorted(s), 0, s.len() as int),
{
    if s.len() == 2 {
        let pv = s[0];
        if s[1] < s[0] {
            assert(scan_down(s, pv, 0, 1) == 1);
            assert(scan_up(s, pv, 1, 1) == 1);
            assert(scan_up(s, pv, 0, 1) == 1);
            assert(partition_loop(s, pv, 1, 1) == (s, 1int));
            assert(partition_loop(s, pv, 0, 1) == (s, 1int));
            assert(quick_from(partitioned(s, 0, 1), 1, 1) == partitioned(s, 0, 1));
        } else {
            lemma_sort_keeps_ascending(s);
        }
    }
}

} // verus!
