//! Searching a text for the lines that contain a query, and the command-line
//! settings of such a search.
use vstd::prelude::*;
use crate::text::{contains, contains_text, lines_of, text_lines};

verus! {

/// The lines among `lines` that contain `q`, in order.
pub open spec fn lines_containing(lines: Seq<Seq<char>>, q: Seq<char>) -> Seq<Seq<char>>
    decreases lines.len(),
{
    if lines.len() == 0 {
        seq![]
    } else {
        let rest = lines_containing(lines.drop_last(), q);
        if contains_text(lines.last(), q) { rest.push(lines.last()) } else { rest }
    }
}

/// The search keeps, in order, exactly the lines in which the query occurs
/// as a run of consecutive characters, at any position, the first included;
/// in particular every line that begins with the query is kept.
pub proof fn lemma_search_keeps_lines_with_query(lines: Seq<Seq<char>>, q: Seq<char>)
    ensures
        lines_containing(lines, q) == lines.filter(
            |l: Seq<char>| exists|i: int| 0 <= i && i + q.len() <= l.len() && #[trigger] l.subrange(i, i + q.len()) == q,
        ),
        forall|k: int| 0 <= k < lines.len() && q.len() <= lines[k].len() && lines[k].take(q.len() as int) == q
            ==> lines_containing(lines, q).contains(#[trigger] lines[k]),
    decreases lines.len(),
{
    let pred = |l: Seq<char>| exists|i: int| 0 <= i && i + q.len() <= l.len() && #[trigger] l.subrange(i, i + q.len()) == q;
    reveal_with_fuel(Seq::filter, 1);
    if lines.len() > 0 {
        lemma_search_keeps_lines_with_query(lines.drop_last(), q);
        assert(contains_text(lines.last(), q) == pred(lines.last()));
    }
    assert(lines_containing(lines, q) == lines.filter(pred));
    assert forall|k: int| 0 <= k < lines.len() && q.len() <= lines[k].len() && lines[k].take(q.len() as int) == q
        implies lines_containing(lines, q).contains(#[trigger] lines[k]) by {
        let z: int = 0;
        assert(lines[k].subrange(z, z + q.len()) =~= lines[k].take(q.len() as int));
        assert(pred(lines[k]));
        lines.lemma_filter_contains(pred, k);
    }
}

/// The lines of `contents` that contain `query`, in order.
pub fn search<'a>(query: &str, contents: &'a str) -> (r: Vec<&'a str>)
    ensures
        r@.map_values(|l: &str| l@) == lines_containing(text_lines(contents@), query@),
{
    let lines = lines_of(contents);
    let ghost lv = lines@.map_values(|l: &str| l@);
    let mut r: Vec<&'a str> = Vec::new();
    let mut i: usize = 0;
    while i < lines.len()
        invariant
            i <= lines@.len(),
            lv == lines@.map_values(|l: &str| l@),
            r@.map_values(|l: &str| l@) =~= lines_containing(lv.take(i as int), query@),
        decreases lines.len() - i,
    {
        assert(lv.take(i + 1).drop_last() =~= lv.take(i as int));
        let ghost before = r@.map_values(|l: &str| l@);
        let line = lines[i];
        if contains(line, query) {
            r.push(line);
            assert(r@.map_values(|l: &str| l@) =~= before.push(line@));
        }
        i += 1;
    }
    assert(lv.take(lines.len() as int) =~= lv);
    r
}

/// What to search for, and in which file.
#[derive(Debug)]
pub struct Config {
    pub query: String,
    pub file_path: String,
}

impl Config {
    /// The settings for `query` in `file_path`.
    pub fn new(query: String, file_path: String) -> (r: Self)
        ensures
            r.query == query,
            r.file_path == file_path,
    {
        Self { query, file_path }
    }

    /// The settings from the command-line arguments: the query is the
    /// second and the file the third; fewer than three arguments are refused.
    pub fn build(args: &[String]) -> (r: Result<Config, &'static str>)
        ensures
            args@.len() < 3 ==> (r matches Err(e) && e@ == "not enough arguments"@),
            args@.len() >= 3 ==> (r matches Ok(c) && c.query == args@[1] && c.file_path == args@[2]),
    {
        if args.len() < 3 {
            return Err("not enough arguments");
        }
        Ok(Config::new(args[1].clone(), args[2].clone()))
    }
}

} // verus!
