//! Reading, walking and editing vectors, and people ordered by name and then
//! age.
use vstd::prelude::*;
use vstd::string::*;
use crate::text::{decimal_text, i128_text, u128_text};

verus! {

/// A person, ordered by name and then by age.
#[derive(Debug, Ord, PartialOrd, Eq, PartialEq)]
pub struct Person {
    pub name: String,
    pub age: u32,
}

impl Person {
    /// A person with the given name and age.
    pub fn new(name: String, age: u32) -> (r: Self)
        ensures
            r.name == name,
            r.age == age,
    {
        Person { name, age }
    }
}

/// The line that reports the third element of a vector.
pub open spec fn third_line(x: int) -> Seq<char> {
    "第三个元素是 "@ + decimal_text(x)
}

/// The line for the third element `x`.
fn third_text(x: i32) -> (r: String)
    ensures
        r@ == third_line(x as int),
{
    let mut r = String::from_str("第三个元素是 ");
    let d = i128_text(x as i128);
    r.append(d.as_str());
    r
}

/// Calls `Vec::capacity`: how many elements the vector can hold without
/// reallocating, which the allocator decides; it is never less than the
/// length.
#[verifier::external_body]
fn vec_capacity<T>(v: &Vec<T>) -> (r: usize)
    ensures
        r >= v@.len(),
{
    v.capacity()
}

/// Calls `Vec::shrink_to_fit`, which lowers the capacity as far as the
/// allocator allows and leaves the elements as they are.
#[verifier::external_body]
fn shrink_vec<T>(v: &mut Vec<T>)
    ensures
        final(v)@ == old(v)@,
{
    v.shrink_to_fit()
}

/// Calls `Vec::from` on an array, which moves the array's elements, in
/// order, into a new vector.
#[verifier::external_body]
fn vec_of_array<T, const N: usize>(a: [T; N]) -> (r: Vec<T>)
    ensures
        r@ == a@,
{
    Vec::from(a)
}

/// Calls `collect` on an array's `into_iter`, which yields the array's
/// elements in order; the vector collected holds them in that order.
#[verifier::external_body]
fn collect_array<T, const N: usize>(a: [T; N]) -> (r: Vec<T>)
    ensures
        r@ == a@,
{
    a.into_iter().collect()
}

/// The line that reports a vector's length and capacity, after `label`.
pub open spec fn size_line(label: Seq<char>, len: int, cap: int) -> Seq<char> {
    label + " 长度是: "@ + decimal_text(len) + ", 容量是: "@ + decimal_text(cap)
}

/// The line for a vector's length and capacity, after `label`.
fn size_text(label: &str, len: usize, cap: usize) -> (r: String)
    ensures
        r@ == size_line(label@, len as int, cap as int),
{
    let mut r = String::from_str(label);
    r.append(" 长度是: ");
    let d = u128_text(len as u128);
    r.append(d.as_str());
    r.append(", 容量是: ");
    let c = u128_text(cap as u128);
    r.append(c.as_str());
    r
}

/// Reads the third element of `[1, 2, 3, 4]` by index and by `get`, walks
/// the vector and adds 1 to each element; checks that three zeros made by
/// `vec!` and from an array are equal; fills a vector made with room for 10
/// with `[1, 2, 3]` and reports its length and capacity, again after
/// reserving room for 100 more and after shrinking it; edits `[1, 2]` by
/// inserting, removing, popping and clearing and reports its length and
/// capacity; checks that ten zeros collected from an array are ten zeros.
/// The result is the lines printed. The capacities are what the allocator
/// gives; each is at least the length it is reported with.
pub fn demo() -> (r: Vec<String>)
    ensures
        r@.len() == 10,
        r@.take(6).map_values(|l: String| l@) == seq![
            third_line(3), third_line(3), decimal_text(1), decimal_text(2), decimal_text(3), decimal_text(4),
        ],
        exists|c1: int, c2: int, c3: int, c4: int| {
            &&& 3 <= c1 && 3 <= c2 && 3 <= c3 && 0 <= c4
            &&& r@[6]@ == size_line("Vector"@, 3, c1)
            &&& r@[7]@ == size_line("Vector（reserve）"@, 3, c2)
            &&& r@[8]@ == size_line("Vector（shrink_to_fit）"@, 3, c3)
            &&& r@[9]@ == size_line("Vector"@, 0, c4)
        },
{
    let mut v: Vec<i32> = Vec::new();
    v.push(1);
    let mut v: Vec<i32> = vec![1, 2, 3];
    v.push(4);
    assert(v@ =~= seq![1i32, 2, 3, 4]);
    let mut lines: Vec<String> = Vec::new();
    lines.push(third_text(v[2]));
    match v.as_slice().get(2) {
        Some(third) => lines.push(third_text(*third)),
        None => lines.push(String::from_str("去你的第三个元素，根本没有！")),
    }
    let mut i: usize = 0;
    while i < v.len()
        invariant
            v@ == seq![1i32, 2, 3, 4],
            i <= 4,
            lines@.len() == 2 + i,
            lines@[0]@ == third_line(3),
            lines@[1]@ == third_line(3),
            forall|j: int| 0 <= j < i ==> #[trigger] lines@[2 + j]@ == decimal_text(j + 1),
        decreases 4 - i,
    {
        lines.push(i128_text(v[i] as i128));
        i += 1;
    }
    let mut i: usize = 0;
    while i < v.len()
        invariant
            v@.len() == 4,
            i <= 4,
            forall|j: int| 0 <= j < i ==> v@[j] == j + 2,
            forall|j: int| i <= j < 4 ==> v@[j] == j + 1,
        decreases 4 - i,
    {
        let x = v[i] + 1;
        v.set(i, x);
        i += 1;
    }
    assert(v@ =~= seq![2i32, 3, 4, 5]);
    let ghost printed = lines@;
    assert(printed.map_values(|l: String| l@) =~= seq![
        third_line(3), third_line(3), decimal_text(1), decimal_text(2), decimal_text(3), decimal_text(4),
    ]) by {
        assert(lines@[2 + 0int]@ == decimal_text(0int + 1));
        assert(lines@[2 + 1int]@ == decimal_text(1int + 1));
        assert(lines@[2 + 2int]@ == decimal_text(2int + 1));
        assert(lines@[2 + 3int]@ == decimal_text(3int + 1));
    }

    let v: Vec<i32> = vec![0; 3];
    let v_from = vec_of_array([0i32; 3]);
    assert(v@ =~= v_from@);

    let mut v: Vec<i32> = Vec::with_capacity(10);
    v.extend_from_slice(&[1, 2, 3]);
    let c1 = vec_capacity(&v);
    lines.push(size_text("Vector", v.len(), c1));
    v.reserve(100);
    let c2 = vec_capacity(&v);
    lines.push(size_text("Vector（reserve）", v.len(), c2));
    shrink_vec(&mut v);
    let c3 = vec_capacity(&v);
    lines.push(size_text("Vector（shrink_to_fit）", v.len(), c3));

    let mut v: Vec<i32> = vec![1, 2];
    let empty = v.is_empty();
    assert(!empty);
    v.insert(2, 3);
    let second = v.remove(1);
    assert(second == 2);
    let last = v.pop();
    assert(last == Some(3i32));
    let first = v.pop();
    assert(first == Some(1i32));
    let none = v.pop();
    assert(none is None);
    v.clear();
    let c4 = vec_capacity(&v);
    lines.push(size_text("Vector", v.len(), c4));

    let v4: Vec<i32> = collect_array([0i32; 10]);
    let zeros: Vec<i32> = vec![0; 10];
    assert(v4@ =~= zeros@);

    assert(lines@.take(6) =~= printed);
    lines
}

} // verus!
