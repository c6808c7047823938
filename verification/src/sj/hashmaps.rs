//! Updating tables from keys to counts: replacing a value, inserting one only
//! where the key is missing, and counting the words of a text.
use vstd::prelude::*;
use vstd::string::*;
use crate::sj::iterator::{entry_text, lemma_put_at, put, put_entry, table_debug_text, table_text, value_at};
use crate::text::{joined, split_words, words};

verus! {

/// A table as the texts of its keys and its values.
pub open spec fn table_view<'a>(s: Seq<(&'a str, i32)>) -> Seq<(Seq<char>, i32)> {
    s.map_values(|e: (&'a str, i32)| (e.0@, e.1))
}

/// [`put`] on a table seen through [`table_view`].
pub open spec fn put_view(s: Seq<(Seq<char>, i32)>, k: Seq<char>, v: i32) -> Seq<(Seq<char>, i32)>
    decreases s.len(),
{
    if s.len() == 0 {
        seq![(k, v)]
    } else if s[0].0 == k {
        s.update(0, (s[0].0, v))
    } else {
        seq![s[0]] + put_view(s.drop_first(), k, v)
    }
}

/// [`value_at`] on a table seen through [`table_view`].
pub open spec fn value_in(s: Seq<(Seq<char>, i32)>, k: Seq<char>) -> Option<i32>
    decreases s.len(),
{
    if s.len() == 0 {
        None
    } else if s[0].0 == k {
        Some(s[0].1)
    } else {
        value_in(s.drop_first(), k)
    }
}

/// The text of a table seen through [`table_view`].
pub open spec fn pairs_text(p: Seq<(Seq<char>, i32)>) -> Seq<char> {
    "{"@ + joined(p.map_values(|e: (Seq<char>, i32)| entry_text(e.0, e.1)), ", "@) + "}"@
}

/// The counts of the first `n` words of `ws`, each word with the number of
/// times it occurs there, in the order the words first occur.
pub open spec fn counted(ws: Seq<Seq<char>>, n: nat) -> Seq<(Seq<char>, i32)>
    decreases n,
{
    if n == 0 || n > ws.len() {
        seq![]
    } else {
        let t = counted(ws, (n - 1) as nat);
        let c: int = match value_in(t, ws[n - 1]) {
            Some(v) => v + 1,
            None => 1,
        };
        put_view(t, ws[n - 1], c as i32)
    }
}

/// Seen through [`table_view`], [`put`] and [`value_at`] are [`put_view`] and
/// [`value_in`].
pub proof fn lemma_table_view<'a>(s: Seq<(&'a str, i32)>, k: &'a str, v: i32)
    ensures
        table_view(put(s, k, v)) == put_view(table_view(s), k@, v),
        value_at(s, k@) == value_in(table_view(s), k@),
    decreases s.len(),
{
    if s.len() > 0 {
        lemma_table_view(s.drop_first(), k, v);
        assert(table_view(s.drop_first()) =~= table_view(s).drop_first());
        if s[0].0@ == k@ {
            assert(table_view(put(s, k, v)) =~= put_view(table_view(s), k@, v));
        } else {
            assert(table_view(seq![s[0]] + put(s.drop_first(), k, v)) =~= seq![table_view(s)[0]] + table_view(put(s.drop_first(), k, v)));
        }
    } else {
        assert(table_view(put(s, k, v)) =~= put_view(table_view(s), k@, v));
    }
}

/// A table holds no value for a key exactly when no entry has that key.
proof fn lemma_value_at_none<'a>(s: Seq<(&'a str, i32)>, k: Seq<char>)
    ensures
        value_at(s, k) is None <==> forall|j: int| 0 <= j < s.len() ==> #[trigger] s[j].0@ != k,
    decreases s.len(),
{
    if s.len() > 0 {
        lemma_value_at_none(s.drop_first(), k);
        if value_at(s, k) is None {
            assert forall|j: int| 0 <= j < s.len() implies #[trigger] s[j].0@ != k by {
                if j > 0 {
                    assert(s[j] == s.drop_first()[j - 1]);
                }
            }
        } else if s[0].0@ != k {
            let j = choose|j: int| 0 <= j < s.drop_first().len() && #[trigger] s.drop_first()[j].0@ == k;
            assert(s[j + 1] == s.drop_first()[j]);
        }
    }
}

/// The text of a table is that of its view.
proof fn lemma_table_text(s: Seq<(&str, i32)>)
    ensures
        table_text(s) == pairs_text(table_view(s)),
{
    assert(s.map_values(|e: (&str, i32)| entry_text(e.0@, e.1)) =~= table_view(s).map_values(|e: (Seq<char>, i32)| entry_text(e.0, e.1)));
}

/// The value the table holds for `key`, if any.
pub fn table_get(entries: &Vec<(&str, i32)>, key: &str) -> (r: Option<i32>)
    ensures
        r == value_at(entries@, key@),
{
    let mut i: usize = 0;
    while i < entries.len()
        invariant
            i <= entries@.len(),
            forall|j: int| 0 <= j < i ==> entries@[j].0@ != key@,
        decreases entries.len() - i,
    {
        if crate::text::text_eq(entries[i].0, key) {
            proof {
                lemma_put_at(entries@, key, 0, i as int);
            }
            return Some(entries[i].1);
        }
        i += 1;
    }
    proof {
        lemma_put_at(entries@, key, 0, entries@.len() as int);
    }
    None
}

/// The place of `key`'s entry in the table, as a map's `entry(key)
/// .or_insert(default)` finds it: the entry that holds the key, or a new
/// entry of `key` and `default` appended where none does.
pub fn entry_or_insert<'a>(entries: &mut Vec<(&'a str, i32)>, key: &'a str, default: i32) -> (r: usize)
    ensures
        final(entries)@ == (if value_at(old(entries)@, key@) is Some {
            old(entries)@
        } else {
            old(entries)@.push((key, default))
        }),
        r < final(entries)@.len(),
        final(entries)@[r as int].0@ == key@,
        forall|j: int| 0 <= j < r ==> final(entries)@[j].0@ != key@,
        value_at(final(entries)@, key@) == Some(final(entries)@[r as int].1),
{
    let mut i: usize = 0;
    while i < entries.len()
        invariant
            i <= entries@.len(),
            entries@ == old(entries)@,
            forall|j: int| 0 <= j < i ==> entries@[j].0@ != key@,
        decreases entries.len() - i,
    {
        if crate::text::text_eq(entries[i].0, key) {
            proof {
                lemma_put_at(entries@, key, 0, i as int);
            }
            return i;
        }
        i += 1;
    }
    proof {
        lemma_put_at(entries@, key, 0, entries@.len() as int);
    }
    entries.push((key, default));
    proof {
        lemma_put_at(entries@, key, 0, (entries@.len() - 1) as int);
    }
    entries.len() - 1
}

/// The counts of the words of `text`: each word with the number of times it
/// occurs, in the order the words first occur. A count must fit in `i32`.
pub fn word_counts<'a>(text: &'a str) -> (r: Vec<(&'a str, i32)>)
    requires
        words(text@).len() <= i32::MAX,
    ensures
        table_view(r@) == counted(words(text@), words(text@).len()),
{
    let ws = split_words(text);
    let ghost wv = ws@.map_values(|w: &str| w@);
    assert(wv == words(text@));
    let mut m: Vec<(&'a str, i32)> = Vec::new();
    let mut i: usize = 0;
    while i < ws.len()
        invariant
            i <= ws@.len(),
            wv == ws@.map_values(|w: &str| w@),
            wv.len() <= i32::MAX,
            table_view(m@) == counted(wv, i as nat),
            forall|j: int| 0 <= j < m@.len() ==> 0 <= #[trigger] m@[j].1 <= i,
        decreases ws.len() - i,
    {
        let w = ws[i];
        let ghost before = m@;
        let k = entry_or_insert(&mut m, w, 0);
        let (key, c) = m[k];
        proof {
            lemma_value_at_none(before, w@);
        }
        assert(0 <= c <= i) by {
            if value_at(before, w@) is None {
                assert(k == before.len());
            }
        }
        let c1 = c + 1;
        proof {
            lemma_put_at(m@, w, c1, k as int);
            lemma_table_view(before, w, c1);
            if value_at(before, w@) is None {
                lemma_put_at(before, w, c1, before.len() as int);
                assert(c == 0);
            } else {
                assert(value_at(m@, w@) == value_at(before, w@));
            }
            assert(m@.update(k as int, (key, c1)) =~= put(before, w, c1));
            assert(wv[i as int] == w@);
        }
        m.set(k, (key, c1));
        i += 1;
    }
    m
}

/// The text whose words are counted.
pub open spec fn sample_text() -> Seq<char> {
    "hello world wonderful world"@
}

/// Replaces a value, inserts values only where a key is missing, counts the
/// words of a text, and builds the same table of teams twice; the result is
/// the lines printed: the table of word counts and `Success!`.
pub fn demo_update() -> (r: Vec<String>)
    ensures
        r@.len() == 2,
        r@[0]@ == pairs_text(counted(words(sample_text()), words(sample_text()).len())),
        r@[1]@ == "Success!"@,
{
    let mut scores: Vec<(&str, i32)> = Vec::new();
    put_entry(&mut scores, "Blue", 10);
    let old = put_entry(&mut scores, "Blue", 20);
    assert(old == Some(10i32));
    let blue = table_get(&scores, "Blue");
    assert(blue == Some(20i32));
    proof {
        reveal_strlit("Blue");
        reveal_strlit("Yellow");
        assert("Blue"@.len() != "Yellow"@.len());
    }
    let k = entry_or_insert(&mut scores, "Yellow", 30);
    assert(scores@[k as int].1 == 30);
    let k = entry_or_insert(&mut scores, "Yellow", 20);
    assert(scores@[k as int].1 == 30);

    let text = "hello world wonderful world";
    proof {
        reveal_strlit("hello world wonderful world");
        lemma_words_len(text@, text@.len());
    }
    let m = word_counts(text);
    let mut lines: Vec<String> = Vec::new();
    let t = table_debug_text(&m);
    proof {
        lemma_table_text(m@);
    }
    lines.push(t);

    let teams: [(&str, i32); 3] = [("Chinese Team", 100), ("American Team", 10), ("France Team", 50)];
    let mut teams_map1: Vec<(&str, i32)> = Vec::new();
    let mut i: usize = 0;
    while i < 3
        invariant
            i <= 3,
            teams_map1@ == put_all(teams@, i as nat),
        decreases 3 - i,
    {
        put_entry(&mut teams_map1, teams[i].0, teams[i].1);
        i += 1;
    }
    let mut teams_map2: Vec<(&str, i32)> = Vec::new();
    let mut i: usize = 0;
    while i < 3
        invariant
            i <= 3,
            teams_map2@ == put_all(teams@, i as nat),
        decreases 3 - i,
    {
        let (name, score) = teams[i];
        put_entry(&mut teams_map2, name, score);
        i += 1;
    }
    assert(teams_map1@ == teams_map2@);
    lines.push(String::from_str("Success!"));
    lines
}

/// The table made by putting the first `n` pairs of `pairs`, in order.
pub open spec fn put_all<'a>(pairs: Seq<(&'a str, i32)>, n: nat) -> Seq<(&'a str, i32)>
    decreases n,
{
    if n == 0 || n > pairs.len() {
        seq![]
    } else {
        put(put_all(pairs, (n - 1) as nat), pairs[n - 1].0, pairs[n - 1].1)
    }
}

/// A text has no more words than characters.
proof fn lemma_words_len(s: Seq<char>, n: nat)
    requires
        n == s.len(),
    ensures
        words(s).len() <= s.len(),
{
    lemma_words_upto_len(s, n);
}

/// Of `s[..n]`, the words found and the word in progress hold at most `n`
/// characters' worth of words.
proof fn lemma_words_upto_len(s: Seq<char>, n: nat)
    requires
        n <= s.len(),
    ensures
        crate::text::words_upto(s, n).0.len() + crate::text::words_upto(s, n).1.len() <= n,
    decreases n,
{
    if n > 0 {
        lemma_words_upto_len(s, (n - 1) as nat);
    }
}

} // verus!
