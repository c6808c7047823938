//! Walking, mapping, filtering and summing vectors, pairing names with ages in
//! a table, and a counter that counts to five.
use vstd::prelude::*;
use vstd::string::*;
use crate::text::{decimal_text, i128_text, joined, text_eq};

verus! {

/// Counts from 1 to 5, then stops.
pub struct Counter {
    count: u32,
}

impl Counter {
    /// How far the counter has counted.
    pub closed spec fn counted(&self) -> u32 {
        self.count
    }

    /// A counter that has not counted yet.
    pub fn new() -> (r: Counter)
        ensures
            r.counted() == 0,
    {
        Counter { count: 0 }
    }

    /// The next count up to 5; `None` from then on.
    pub fn next(&mut self) -> (r: Option<u32>)
        ensures
            old(self).counted() < 5 ==> r == Some((old(self).counted() + 1) as u32) && final(self).counted() == old(self).counted() + 1,
            old(self).counted() >= 5 ==> r is None && final(self).counted() == old(self).counted(),
    {
        if self.count < 5 {
            self.count += 1;
            Some(self.count)
        } else {
            None
        }
    }
}

/// The text `{:?}` writes for a vector of integers, e.g. `[1, 2]`.
pub open spec fn vec_text(v: Seq<i32>) -> Seq<char> {
    "["@ + joined(v.map_values(|x: i32| decimal_text(x as int)), ", "@) + "]"@
}

/// Writes a vector of integers the way `{:?}` does.
pub fn vec_debug_text(v: &Vec<i32>) -> (r: String)
    ensures
        r@ == vec_text(v@),
{
    let ghost items = v@.map_values(|x: i32| decimal_text(x as int));
    let mut body = String::new();
    let mut i: usize = 0;
    while i < v.len()
        invariant
            i <= v@.len(),
            items == v@.map_values(|x: i32| decimal_text(x as int)),
            body@ == joined(items.take(i as int), ", "@),
        decreases v.len() - i,
    {
        assert(items.take(i + 1).drop_last() =~= items.take(i as int));
        if i != 0 {
            body.append(", ");
        } else {
            assert(items.take(0) =~= Seq::<Seq<char>>::empty());
            assert(body@ =~= Seq::<char>::empty());
        }
        let d = i128_text(v[i] as i128);
        body.append(d.as_str());
        assert(body@ =~= joined(items.take(i + 1), ", "@));
        i += 1;
    }
    assert(items.take(v@.len() as int) =~= items);
    let mut r = String::from_str("[");
    r.append(body.as_str());
    r.append("]");
    r
}

/// The table that pairing names with ages builds: `put` gives a key a value,
/// replacing the value of the entry that holds the key (which keeps its place)
/// or appending a new entry.
pub open spec fn put<'a>(s: Seq<(&'a str, i32)>, k: &'a str, v: i32) -> Seq<(&'a str, i32)>
    decreases s.len(),
{
    if s.len() == 0 {
        seq![(k, v)]
    } else if s[0].0@ == k@ {
        s.update(0, (s[0].0, v))
    } else {
        seq![s[0]] + put(s.drop_first(), k, v)
    }
}

/// The value the table `s` holds for the key `k`, if any.
pub open spec fn value_at<'a>(s: Seq<(&'a str, i32)>, k: Seq<char>) -> Option<i32>
    decreases s.len(),
{
    if s.len() == 0 {
        None
    } else if s[0].0@ == k {
        Some(s[0].1)
    } else {
        value_at(s.drop_first(), k)
    }
}

/// The table made by putting the first `n` names with their ages, in order.
pub open spec fn zipped<'a>(names: Seq<&'a str>, ages: Seq<i32>, n: nat) -> Seq<(&'a str, i32)>
    decreases n,
{
    if n == 0 {
        seq![]
    } else {
        put(zipped(names, ages, (n - 1) as nat), names[n - 1], ages[n - 1])
    }
}

/// Putting a key whose first occurrence is at `i` replaces that entry's value,
/// which is the value the table holds for the key; putting a key that no
/// entry holds appends it, and the table held no value for it.
pub proof fn lemma_put_at<'a>(s: Seq<(&'a str, i32)>, k: &'a str, v: i32, i: int)
    requires
        0 <= i <= s.len(),
        forall|j: int| 0 <= j < i ==> s[j].0@ != k@,
        i < s.len() ==> s[i].0@ == k@,
    ensures
        i < s.len() ==> put(s, k, v) == s.update(i, (s[i].0, v)),
        i < s.len() ==> value_at(s, k@) == Some(s[i].1),
        i == s.len() ==> put(s, k, v) == s.push((k, v)),
        i == s.len() ==> value_at(s, k@) is None,
    decreases i,
{
    if i > 0 {
        let t = s.drop_first();
        assert forall|j: int| 0 <= j < i - 1 implies t[j].0@ != k@ by {
            assert(t[j] == s[j + 1]);
        }
        lemma_put_at(t, k, v, i - 1);
        if i < s.len() {
            assert(put(s, k, v) =~= s.update(i, (s[i].0, v)));
        } else {
            assert(put(s, k, v) =~= s.push((k, v)));
        }
    } else if s.len() == 0 {
        assert(put(s, k, v) =~= s.push((k, v)));
    }
}

/// Gives `key` the value `value` in the table `entries`, as [`put`] says,
/// and returns the value it held before, if any.
pub fn put_entry<'a>(entries: &mut Vec<(&'a str, i32)>, key: &'a str, value: i32) -> (r: Option<i32>)
    ensures
        final(entries)@ == put(old(entries)@, key, value),
        r == value_at(old(entries)@, key@),
{
    let mut i: usize = 0;
    while i < entries.len()
        invariant
            i <= entries@.len(),
            entries@ == old(entries)@,
            forall|j: int| 0 <= j < i ==> entries@[j].0@ != key@,
        decreases entries.len() - i,
    {
        let found = text_eq(entries[i].0, key);
        if found {
            proof {
                lemma_put_at(entries@, key, value, i as int);
            }
            let (k, before) = entries[i];
            entries.set(i, (k, value));
            return Some(before);
        }
        i += 1;
    }
    proof {
        lemma_put_at(entries@, key, value, entries@.len() as int);
    }
    entries.push((key, value));
    None
}

/// The text `{:?}` writes for one entry of a table from names to ages:
/// `"Bob": 18`.
pub open spec fn entry_text(k: Seq<char>, v: i32) -> Seq<char> {
    "\""@ + k + "\": "@ + decimal_text(v as int)
}

/// The text of a table from names to ages: its entries, in the order the
/// table holds them, between braces.
pub open spec fn table_text<'a>(entries: Seq<(&'a str, i32)>) -> Seq<char> {
    "{"@ + joined(entries.map_values(|e: (&'a str, i32)| entry_text(e.0@, e.1)), ", "@) + "}"@
}

/// Writes a table from names to ages the way `{:?}` writes a map.
pub fn table_debug_text(entries: &Vec<(&str, i32)>) -> (r: String)
    ensures
        r@ == table_text(entries@),
{
    let ghost items = entries@.map_values(|e: (&str, i32)| entry_text(e.0@, e.1));
    let mut body = String::new();
    let mut i: usize = 0;
    while i < entries.len()
        invariant
            i <= entries@.len(),
            items == entries@.map_values(|e: (&str, i32)| entry_text(e.0@, e.1)),
            body@ == joined(items.take(i as int), ", "@),
        decreases entries.len() - i,
    {
        assert(items.take(i + 1).drop_last() =~= items.take(i as int));
        if i != 0 {
            body.append(", ");
        } else {
            assert(items.take(0) =~= Seq::<Seq<char>>::empty());
            assert(body@ =~= Seq::<char>::empty());
        }
        body.append("\"");
        body.append(entries[i].0);
        body.append("\": ");
        let d = i128_text(entries[i].1 as i128);
        body.append(d.as_str());
        assert(body@ =~= joined(items.take(i + 1), ", "@));
        i += 1;
    }
    assert(items.take(entries@.len() as int) =~= items);
    let mut r = String::from_str("{");
    r.append(body.as_str());
    r.append("}");
    r
}

/// The table that pairing Bob, Frank and Ferris with 18, 19 and 20 builds.
pub open spec fn ages_table() -> Seq<(&'static str, i32)> {
    seq![("Bob", 18i32), ("Frank", 19i32), ("Ferris", 20i32)]
}

/// The line for an integer.
fn int_line(x: i32) -> (r: String)
    ensures
        r@ == decimal_text(x as int),
{
    i128_text(x as i128)
}

/// Walks a vector by value, by reference and step by step, then changes its
/// items in place; the result is the lines printed.
pub fn demo() -> (r: Vec<String>)
    ensures
        r@.map_values(|l: String| l@) == seq![
            decimal_text(1), decimal_text(2), decimal_text(1), decimal_text(2), vec_text(seq![1i32, 2]),
            vec_text(seq![1i32, 2]), decimal_text(1), decimal_text(2), vec_text(seq![2i32, 3]), vec_text(seq![4i32, 6]),
        ],
{
    let mut lines: Vec<String> = Vec::new();
    let arr: Vec<i32> = vec![1, 2];
    let mut i: usize = 0;
    while i < arr.len()
        invariant
            arr@ == seq![1i32, 2],
            i <= 2,
            lines@.map_values(|l: String| l@) == arr@.take(i as int).map_values(|x: i32| decimal_text(x as int)),
        decreases 2 - i,
    {
        let ghost before = lines@.map_values(|l: String| l@);
        lines.push(int_line(arr[i]));
        assert(lines@.map_values(|l: String| l@) =~= before.push(decimal_text(arr@[i as int] as int)));
        assert(arr@.take(i + 1).map_values(|x: i32| decimal_text(x as int)) =~= arr@.take(i as int).map_values(|x: i32| decimal_text(x as int)).push(decimal_text(arr@[i as int] as int)));
        i += 1;
    }
    assert(arr@.take(2) =~= arr@);
    assert(lines@.len() == 2 && lines@[0]@ == decimal_text(1) && lines@[1]@ == decimal_text(2)) by {
        assert(lines@.map_values(|l: String| l@)[0] == lines@[0]@);
        assert(lines@.map_values(|l: String| l@)[1] == lines@[1]@);
    }
    let arr: Vec<i32> = vec![1, 2];
    lines.push(int_line(arr[0]));
    lines.push(int_line(arr[1]));
    lines.push(vec_debug_text(&arr));
    assert(arr@[0] == 1 && arr@[1] == 2 && arr@.len() == 2);
    lines.push(vec_debug_text(&arr));
    lines.push(int_line(arr[0]));
    lines.push(int_line(arr[1]));
    let mut arr: Vec<i32> = vec![1, 2];
    let mut i: usize = 0;
    while i < arr.len()
        invariant
            arr@.len() == 2,
            i <= 2,
            forall|j: int| 0 <= j < i ==> arr@[j] == j + 2,
            forall|j: int| i <= j < 2 ==> arr@[j] == j + 1,
        decreases 2 - i,
    {
        let x = arr[i] + 1;
        arr.set(i, x);
        i += 1;
    }
    assert(arr@ =~= seq![2i32, 3]);
    lines.push(vec_debug_text(&arr));
    let mut i: usize = 0;
    while i < arr.len()
        invariant
            arr@.len() == 2,
            i <= 2,
            forall|j: int| 0 <= j < i ==> arr@[j] == 2 * (j + 2),
            forall|j: int| i <= j < 2 ==> arr@[j] == j + 2,
        decreases 2 - i,
    {
        let x = arr[i] * 2;
        arr.set(i, x);
        i += 1;
    }
    assert(arr@ =~= seq![4i32, 6]);
    lines.push(vec_debug_text(&arr));
    assert(lines@.map_values(|l: String| l@) =~= seq![
        decimal_text(1), decimal_text(2), decimal_text(1), decimal_text(2), vec_text(seq![1i32, 2]),
        vec_text(seq![1i32, 2]), decimal_text(1), decimal_text(2), vec_text(seq![2i32, 3]), vec_text(seq![4i32, 6]),
    ]);
    lines
}

/// The sum of the items of a vector, which must fit in `i32`.
fn sum_of(v: &Vec<i32>) -> (r: i32)
    requires
        forall|i: int| 0 <= i < v@.len() ==> 0 <= #[trigger] v@[i] <= 100,
        v@.len() <= 100,
    ensures
        r == v@.fold_left(0int, |acc: int, x: i32| acc + x),
{
    let mut total: i32 = 0;
    let mut i: usize = 0;
    while i < v.len()
        invariant
            i <= v@.len() <= 100,
            forall|k: int| 0 <= k < v@.len() ==> 0 <= #[trigger] v@[k] <= 100,
            total == v@.take(i as int).fold_left(0int, |acc: int, x: i32| acc + x),
            0 <= total <= 100 * i,
        decreases v.len() - i,
    {
        assert(v@.take(i + 1).drop_last() =~= v@.take(i as int));
        total = total + v[i];
        i += 1;
    }
    assert(v@.take(v@.len() as int) =~= v@);
    total
}

/// Sums a vector: 1 + 2 + 3 is 6; the result is the line printed.
pub fn demo2() -> (r: Vec<String>)
    ensures
        r@.map_values(|l: String| l@) == seq![vec_text(seq![1i32, 2, 3])],
{
    let v1: Vec<i32> = vec![1, 2, 3];
    let total = sum_of(&v1);
    assert(v1@.take(3) =~= v1@);
    assert(total == 6) by {
        reveal_with_fuel(Seq::fold_left, 4);
        assert(v1@.drop_last() =~= seq![1i32, 2]);
        assert(v1@.drop_last().drop_last() =~= seq![1i32]);
        assert(v1@.drop_last().drop_last().drop_last() =~= Seq::<i32>::empty());
    }
    let mut lines: Vec<String> = Vec::new();
    lines.push(vec_debug_text(&v1));
    assert(lines@.map_values(|l: String| l@) =~= seq![vec_text(seq![1i32, 2, 3])]);
    lines
}

/// Maps a vector, pairs names with ages in a table, and keeps the even items
/// of a vector; the result is the lines printed. The table keeps its entries
/// in the order they were first put, so its line lists Bob, Frank and Ferris
/// in that order (a hash map's walk may list them in any order).
pub fn demo3() -> (r: Vec<String>)
    ensures
        r@.len() == 2,
        r@[0]@ == table_text(ages_table()),
        r@[1]@ == vec_text(seq![2i32, 4]),
{
    let arr: Vec<i32> = vec![1, 2, 3];
    let mut v2: Vec<i32> = Vec::new();
    let mut i: usize = 0;
    while i < arr.len()
        invariant
            arr@ == seq![1i32, 2, 3],
            i <= 3,
            v2@.len() == i,
            forall|j: int| 0 <= j < i ==> v2@[j] == arr@[j] + 1,
        decreases 3 - i,
    {
        v2.push(arr[i] + 1);
        i += 1;
    }
    assert(v2@ =~= seq![2i32, 3, 4]);
    let names: Vec<&str> = vec!["Bob", "Frank", "Ferris"];
    let ages: Vec<i32> = vec![18, 19, 20];
    let mut m: Vec<(&str, i32)> = Vec::new();
    let mut i: usize = 0;
    while i < names.len() && i < ages.len()
        invariant
            names@ == seq!["Bob", "Frank", "Ferris"],
            ages@ == seq![18i32, 19, 20],
            i <= 3,
            m@ == zipped(names@, ages@, i as nat),
        decreases names.len() - i,
    {
        put_entry(&mut m, names[i], ages[i]);
        i += 1;
    }
    assert(m@ =~= ages_table()) by {
        reveal_strlit("Bob");
        reveal_strlit("Frank");
        reveal_strlit("Ferris");
        reveal_with_fuel(put, 3);
        assert(zipped(names@, ages@, 0) =~= Seq::<(&str, i32)>::empty());
        assert(names@[0] == "Bob" && names@[1] == "Frank" && names@[2] == "Ferris");
        assert(zipped(names@, ages@, 1) =~= seq![("Bob", 18i32)]);
        assert("Bob"@.len() == 3 && "Frank"@.len() == 5 && "Ferris"@.len() == 6);
        assert("Frank"@ != "Ferris"@) by {
            assert("Frank"@[1] != "Ferris"@[1]);
        }
        let one = seq![("Bob", 18i32)];
        assert(one.drop_first() =~= Seq::<(&str, i32)>::empty());
        assert(put(one, "Frank", 19i32) =~= seq![("Bob", 18i32), ("Frank", 19i32)]);
        assert(zipped(names@, ages@, 2) =~= seq![("Bob", 18i32), ("Frank", 19i32)]);
        let two = seq![("Bob", 18i32), ("Frank", 19i32)];
        assert(two.drop_first() =~= seq![("Frank", 19i32)]);
        assert(two.drop_first().drop_first() =~= Seq::<(&str, i32)>::empty());
        assert(put(two, "Ferris", 20i32) =~= ages_table());
        assert(zipped(names@, ages@, 3) =~= ages_table());
    }
    let mut lines: Vec<String> = Vec::new();
    lines.push(table_debug_text(&m));
    let arr: Vec<i32> = vec![1, 2, 3, 4];
    let mut arr2: Vec<i32> = Vec::new();
    let mut i: usize = 0;
    while i < arr.len()
        invariant
            arr@ == seq![1i32, 2, 3, 4],
            i <= 4,
            arr2@ == arr@.take(i as int).filter(|x: i32| x % 2 == 0),
        decreases 4 - i,
    {
        reveal_with_fuel(Seq::filter, 1);
        assert(arr@.take(i + 1).drop_last() =~= arr@.take(i as int));
        if arr[i] % 2 == 0 {
            arr2.push(arr[i]);
        }
        i += 1;
    }
    assert(arr@.take(4) =~= arr@);
    assert(arr2@ =~= seq![2i32, 4]) by {
        reveal_with_fuel(Seq::filter, 5);
        assert(arr@.drop_last() =~= seq![1i32, 2, 3]);
        assert(arr@.drop_last().drop_last() =~= seq![1i32, 2]);
        assert(arr@.drop_last().drop_last().drop_last() =~= seq![1i32]);
        assert(arr@.drop_last().drop_last().drop_last().drop_last() =~= Seq::<i32>::empty());
    }
    lines.push(vec_debug_text(&arr2));
    lines
}

/// Counts to five and past it.
pub fn demo4() -> (r: Vec<Option<u32>>)
    ensures
        r@ == seq![Some(1u32), Some(2u32), Some(3u32), Some(4u32), Some(5u32), None::<u32>],
{
    let mut c = Counter::new();
    let mut r: Vec<Option<u32>> = Vec::new();
    r.push(c.next());
    r.push(c.next());
    r.push(c.next());
    r.push(c.next());
    r.push(c.next());
    r.push(c.next());
    assert(r@ =~= seq![Some(1u32), Some(2u32), Some(3u32), Some(4u32), Some(5u32), None::<u32>]);
    r
}

/// Runs the iterator demonstrations; the result is the lines they print.
pub fn run() -> (r: Vec<String>)
    ensures
        r@.len() == 13,
        r@.take(10).map_values(|l: String| l@) == seq![
            decimal_text(1), decimal_text(2), decimal_text(1), decimal_text(2), vec_text(seq![1i32, 2]),
            vec_text(seq![1i32, 2]), decimal_text(1), decimal_text(2), vec_text(seq![2i32, 3]), vec_text(seq![4i32, 6]),
        ],
        r@[10]@ == vec_text(seq![1i32, 2, 3]),
        r@[11]@ == table_text(ages_table()),
        r@[12]@ == vec_text(seq![2i32, 4]),
{
    let mut lines = demo();
    let mut more = demo2();
    let ghost a = lines@;
    let ghost m = more@;
    assert(a.len() == 10) by {
        assert(a.map_values(|l: String| l@).len() == a.len());
    }
    assert(m.len() == 1 && m[0]@ == vec_text(seq![1i32, 2, 3])) by {
        assert(m.map_values(|l: String| l@).len() == m.len());
        assert(m.map_values(|l: String| l@)[0] == m[0]@);
    }
    lines.append(&mut more);
    let mut rest = demo3();
    let ghost b = lines@;
    let ghost c = rest@;
    lines.append(&mut rest);
    let counts = demo4();
    assert(counts@.len() == 6);
    assert(b =~= a + m);
    assert(lines@ =~= b + c);
    assert(lines@.take(10) =~= a);
    assert(lines@[10] == m[0]);
    assert(lines@[11] == c[0]);
    assert(lines@[12] == c[1]);
    lines
}

} // verus!
