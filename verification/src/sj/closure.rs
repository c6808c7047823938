//! Closures that capture their surroundings, and a cache of one result of a
//! function.
use vstd::prelude::*;
use vstd::string::*;
use crate::text::{decimal_text, u128_text};

verus! {

/// Calls a function once and keeps its result: every later query gets the
/// first result back, whatever its argument.
#[verifier::reject_recursive_types(E)]
pub struct Cacher<T, E: Copy> where T: Fn(E) -> E {
    query: T,
    value: Option<E>,
}

impl<T, E: Copy> Cacher<T, E> where T: Fn(E) -> E {
    /// The function that computes the result.
    pub closed spec fn function(&self) -> T {
        self.query
    }

    /// The result kept, if any.
    pub closed spec fn cached(&self) -> Option<E> {
        self.value
    }

    /// A cache of `query` that holds no result yet.
    pub fn new(query: T) -> (r: Cacher<T, E>)
        ensures
            r.function() == query,
            r.cached() is None,
    {
        Cacher { query, value: None }
    }

    /// The kept result; when there is none, the function's result for `arg`,
    /// which is then kept.
    pub fn query(&mut self, arg: E) -> (r: E)
        requires
            old(self).cached() is None ==> call_requires(old(self).function(), (arg,)),
        ensures
            final(self).function() == old(self).function(),
            query_step(old(self).function(), old(self).cached(), arg, r, final(self).cached()),
    {
        match self.value {
            Some(v) => v,
            None => {
                let v = (self.query)(arg);
                self.value = Some(v);
                v
            },
        }
    }
}

/// What one query of a cache of `f` does: where a result `v` is kept, the
/// query returns `v` and keeps it; where none is, it returns `f`'s result for
/// `arg` and keeps that.
pub open spec fn query_step<T, E>(f: T, before: Option<E>, arg: E, r: E, after: Option<E>) -> bool
    where T: Fn(E) -> E,
{
    match before {
        Some(v) => r == v && after == Some(v),
        None => call_ensures(f, (arg,), r) && after == Some(r),
    }
}

/// After the first of a run of queries of a fresh cache, the first result is
/// the one kept.
proof fn lemma_first_result_kept<T, E>(f: T, args: Seq<E>, states: Seq<Option<E>>, results: Seq<E>, n: int)
    where T: Fn(E) -> E,
    requires
        args.len() >= 1,
        results.len() == args.len(),
        states.len() == args.len() + 1,
        states[0] is None,
        forall|i: int| 0 <= i < args.len() ==> #[trigger] query_step(f, states[i], args[i], results[i], states[i + 1]),
        1 <= n < states.len(),
    ensures
        states[n] == Some(results[0]),
    decreases n,
{
    let m = n - 1;
    assert(query_step(f, states[m], args[m], results[m], states[m + 1]));
    if n > 1 {
        lemma_first_result_kept(f, args, states, results, n - 1);
    }
}

/// Queries of a fresh cache, one after another: the first computes the
/// function's result for its argument, and every query returns that same
/// result, whatever its own argument; the result is kept from then on.
/// `states[i]` is the kept result before the query of `args[i]`, which
/// returns `results[i]`.
pub proof fn lemma_queries_return_first<T, E>(f: T, args: Seq<E>, states: Seq<Option<E>>, results: Seq<E>)
    where T: Fn(E) -> E,
    requires
        args.len() >= 1,
        results.len() == args.len(),
        states.len() == args.len() + 1,
        states[0] is None,
        forall|i: int| 0 <= i < args.len() ==> #[trigger] query_step(f, states[i], args[i], results[i], states[i + 1]),
    ensures
        call_ensures(f, (args[0],), results[0]),
        forall|i: int| 0 <= i < results.len() ==> #[trigger] results[i] == results[0],
        forall|i: int| 1 <= i < states.len() ==> #[trigger] states[i] == Some(results[0]),
{
    let z: int = 0;
    assert(query_step(f, states[z], args[z], results[z], states[z + 1]));
    assert forall|i: int| 1 <= i < states.len() implies #[trigger] states[i] == Some(results[0]) by {
        lemma_first_result_kept(f, args, states, results, i);
    }
    assert forall|i: int| 0 <= i < results.len() implies #[trigger] results[i] == results[0] by {
        if i > 0 {
            lemma_first_result_kept(f, args, states, results, i);
            assert(query_step(f, states[i], args[i], results[i], states[i + 1]));
        }
    }
}

/// A closure that adds a captured 1 to its argument, applied to 11.
pub fn demo() -> (r: i32)
    ensures
        r == 12,
{
    let x: i32 = 1;
    let sum = |y: i32| -> (s: i32)
        requires
            y < 1000,
        ensures
            s == x + y,
        { x + y };
    sum(11)
}

/// A closure that compares its argument with a captured 4, applied to 4.
pub fn demo3() -> (r: bool)
    ensures
        r,
{
    let x: i32 = 4;
    let equal_to_x = |z: i32| -> (b: bool)
        ensures
            b == (z == x),
        { z == x };
    let y: i32 = 4;
    equal_to_x(y)
}

/// The line printed for a cached result.
fn cacher_line(v: u32) -> (r: String)
    ensures
        r@ == "Cacher:"@ + decimal_text(v as int),
{
    let mut r = String::from_str("Cacher:");
    let d = u128_text(v as u128);
    r.append(d.as_str());
    r
}

/// Queries a cache of the identity with 1, then 1, 10, 1, 10; the lines for
/// the second, fourth and fifth queries all show the first result, 1.
pub fn demo2() -> (r: Vec<String>)
    ensures
        r@.len() == 3,
        forall|i: int| 0 <= i < 3 ==> #[trigger] r@[i]@ == "Cacher:"@ + decimal_text(1),
{
    let mut c = Cacher::new(|v: u32| -> (w: u32) ensures w == v, { v });
    let mut lines: Vec<String> = Vec::new();
    c.query(1u32);
    let a = c.query(1u32);
    lines.push(cacher_line(a));
    c.query(10u32);
    let b = c.query(1u32);
    lines.push(cacher_line(b));
    let d = c.query(10u32);
    lines.push(cacher_line(d));
    lines
}

/// Runs the closure demonstrations; the result is the lines they print.
pub fn run() -> (r: Vec<String>)
    ensures
        r@.len() == 3,
        forall|i: int| 0 <= i < 3 ==> #[trigger] r@[i]@ == "Cacher:"@ + decimal_text(1),
{
    let s = demo();
    assert(s == 12);
    let lines = demo2();
    let e = demo3();
    assert(e);
    lines
}

} // verus!
