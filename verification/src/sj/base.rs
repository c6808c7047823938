//! Integer overflow handling and a generic largest element.
use vstd::prelude::*;
use vstd::std_specs::cmp::PartialOrdIs;
use vstd::std_specs::cmp::PartialOrdSpec;

verus! {

/// What `u8::overflowing_add` gives: the wrapped sum and whether the true
/// sum exceeds `u8::MAX`.
fn overflowing_add_u8(a: u8, b: u8) -> (r: (u8, bool))
    ensures
        r.1 == (a + b > u8::MAX),
        r.0 == (if a + b > u8::MAX { a + b - 256 } else { a + b }),
{
    if b > u8::MAX - a {
        let s: u8 = b - (u8::MAX - a) - 1;
        (s, true)
    } else {
        (a + b, false)
    }
}

/// Adding 20 to 255 in `u8` four ways: wrapping gives 19, checked gives
/// `None`, overflowing gives `(19, true)`, saturating gives 255.
pub fn int_overflow() -> (r: (u8, Option<u8>, (u8, bool), u8))
    ensures
        r == (19u8, None::<u8>, (19u8, true), 255u8),
{
    let a: u8 = 255;
    let b = a.wrapping_add(20);
    let c = a.checked_add(20);
    let d = overflowing_add_u8(a, 20);
    let e = a.saturating_add(20);
    (b, c, d, e)
}

/// The element that a scan of `s[..n]` keeps as the largest: the first
/// element, replaced by each later one that is greater than the one kept.
pub open spec fn running_largest<T: PartialOrd>(s: Seq<T>, n: nat) -> T
    decreases n,
{
    if n <= 1 {
        s[0]
    } else {
        let m = running_largest(s, (n - 1) as nat);
        if s[n - 1].is_gt(&m) { s[n - 1] } else { m }
    }
}

/// `x` is greater than `y` in `T`'s order, as its specification describes it.
pub open spec fn greater<T: PartialOrd>(x: T, y: T) -> bool {
    x.is_gt(&y)
}

/// Where `>` on `T` is irreflexive and transitive, as on integers and
/// characters, no element of `s[..n]` is greater than the element the scan
/// keeps.
pub proof fn lemma_running_largest_is_maximal<T: PartialOrd>(s: Seq<T>, n: nat)
    requires
        1 <= n <= s.len(),
        forall|x: T| !#[trigger] greater(x, x),
        forall|x: T, y: T, z: T| #[trigger] greater(x, y) && #[trigger] greater(y, z) ==> greater(x, z),
    ensures
        forall|k: int| 0 <= k < n ==> !greater(#[trigger] s[k], running_largest(s, n)),
    decreases n,
{
    if n > 1 {
        let p: nat = (n - 1) as nat;
        lemma_running_largest_is_maximal(s, p);
        let m = running_largest(s, p);
        let x = s[n - 1];
        assert(!greater(x, x));
        if greater(x, m) {
            assert forall|k: int| 0 <= k < n implies !greater(#[trigger] s[k], running_largest(s, n)) by {
                if k < n - 1 && greater(s[k], x) {
                    assert(greater(s[k], m));
                }
            }
        }
    } else {
        assert(!greater(s[0], s[0]));
    }
}

/// The largest element of a non-empty slice, the first of equals winning.
/// Whatever `T`'s order, the result is an element of the slice; where that
/// order is not the one its specification describes, nothing more is claimed
/// of it.
pub fn largest<T: PartialOrd + Copy>(list: &[T]) -> (r: T)
    requires
        list@.len() > 0,
    ensures
        list@.contains(r),
        T::obeys_partial_cmp_spec() ==> r == running_largest(list@, list@.len()),
{
    let mut largest = list[0];
    let mut i: usize = 0;
    let ghost mut k: nat = 1;
    while i < list.len()
        invariant
            i <= list@.len(),
            list@.len() > 0,
            (i == 0 && k == 1) || (i > 0 && k == i),
            list@.contains(largest),
            T::obeys_partial_cmp_spec() ==> largest == running_largest(list@, k),
        decreases list@.len() - i,
    {
        let item = list[i];
        if i > 0 {
            proof { k = k + 1; }
            if item > largest {
                largest = item;
            }
        } else if item > largest {
            largest = item;
        }
        i += 1;
    }
    largest
}

} // verus!
