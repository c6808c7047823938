//! Conversions between types: a point read from and written as text, and
//! integers read from text.
use vstd::prelude::*;
use vstd::string::*;
use crate::text::{decimal_text, i128_text, parse_i32, parsed_in, split_at_char, split_pieces, trim, trimmed};

verus! {

#[verifier::external_type_specification]
#[verifier::external_body]
pub struct ExParseIntError(core::num::ParseIntError);

/// Calls `str::parse::<i32>`, which succeeds exactly when the text is an
/// integer in the range of `i32` (see `parsed_in`) and then gives its value.
/// The error's kind is not stated.
#[verifier::external_body]
fn parse_i32_checked(s: &str) -> (r: Result<i32, core::num::ParseIntError>)
    ensures
        r is Ok <==> parsed_in(s@, true, i32::MIN as int, i32::MAX as int) is Some,
        r matches Ok(v) ==> parsed_in(s@, true, i32::MIN as int, i32::MAX as int) == Some(v as int),
{
    s.parse::<i32>()
}

/// A point of the plane.
#[derive(Debug, PartialEq, Eq, Structural)]
pub struct Point {
    pub x: i32,
    pub y: i32,
}

/// `c` is a parenthesis.
pub open spec fn is_paren(c: char) -> bool {
    c == '(' || c == ')'
}

/// `s` without its leading and trailing parentheses.
pub open spec fn paren_trimmed(s: Seq<char>) -> Seq<char>
    decreases s.len(),
{
    if s.len() > 0 && is_paren(s[0]) {
        paren_trimmed(s.drop_first())
    } else if s.len() > 0 && is_paren(s.last()) {
        paren_trimmed(s.drop_last())
    } else {
        s
    }
}

/// Removes leading and trailing parentheses.
fn trim_parens(s: &str) -> (r: &str)
    ensures
        r@ == paren_trimmed(s@),
{
    let n = s.unicode_len();
    let mut i: usize = 0;
    assert(s@.subrange(0, n as int) =~= s@);
    while i < n && (s.get_char(i) == '(' || s.get_char(i) == ')')
        invariant
            i <= n,
            n == s@.len(),
            paren_trimmed(s@) == paren_trimmed(s@.subrange(i as int, n as int)),
        decreases n - i,
    {
        assert(s@.subrange(i as int, n as int).drop_first() =~= s@.subrange(i + 1, n as int));
        i += 1;
    }
    let mut j: usize = n;
    while j > i && (s.get_char(j - 1) == '(' || s.get_char(j - 1) == ')')
        invariant
            i <= j <= n,
            n == s@.len(),
            i < j ==> !is_paren(s@[i as int]),
            paren_trimmed(s@) == paren_trimmed(s@.subrange(i as int, j as int)),
        decreases j,
    {
        let ghost t = s@.subrange(i as int, j as int);
        assert(t.drop_last() =~= s@.subrange(i as int, j - 1));
        assert(t[0] == s@[i as int]);
        j -= 1;
    }
    let ghost t = s@.subrange(i as int, j as int);
    assert(t.len() > 0 ==> t[0] == s@[i as int] && t.last() == s@[j - 1]);
    s.substring_char(i, j)
}

/// The coordinate texts of a point's text: the pieces between commas once
/// the parentheses around it are removed, each trimmed.
pub open spec fn coordinate_texts(s: Seq<char>) -> Seq<Seq<char>> {
    split_pieces(paren_trimmed(s), ',').map_values(|p: Seq<char>| trimmed(p))
}

/// The range of `i32`, for `parsed_in`.
pub open spec fn parsed_i32(t: Seq<char>) -> Option<int> {
    parsed_in(t, true, i32::MIN as int, i32::MAX as int)
}

impl Point {
    /// Reads a point written `(x, y)`: the parentheses around it are removed,
    /// the rest is split at commas, and the first two pieces, trimmed, are
    /// read as `i32`. A text whose first piece is an integer must have a
    /// second piece.
    pub fn from_str(s: &str) -> (r: Result<Point, core::num::ParseIntError>)
        requires
            parsed_i32(coordinate_texts(s@)[0]) is Some ==> coordinate_texts(s@).len() >= 2,
        ensures
            match parsed_i32(coordinate_texts(s@)[0]) {
                None => r is Err,
                Some(x) => match parsed_i32(coordinate_texts(s@)[1]) {
                    None => r is Err,
                    Some(y) => r == Ok::<Point, core::num::ParseIntError>(Point { x: x as i32, y: y as i32 }),
                },
            },
    {
        let inner = trim_parens(s);
        let pieces = split_at_char(inner, ',');
        proof { crate::text::lemma_split_pieces_nonempty(inner@, ','); }
        let ghost pv = pieces@.map_values(|p: &str| p@);
        assert(coordinate_texts(s@) =~= pv.map_values(|p: Seq<char>| trimmed(p)));
        let x = match parse_i32_checked(trim(pieces[0])) {
            Ok(v) => v,
            Err(e) => {
                return Err(e);
            },
        };
        let y = match parse_i32_checked(trim(pieces[1])) {
            Ok(v) => v,
            Err(e) => {
                return Err(e);
            },
        };
        Ok(Point { x, y })
    }

    /// The text of the point, e.g. `The point is (0, 0)`.
    pub fn to_string(&self) -> (r: String)
        ensures
            r@ == "The point is ("@ + decimal_text(self.x as int) + ", "@ + decimal_text(self.y as int) + ")"@,
    {
        let mut r = String::from_str("The point is (");
        let x = i128_text(self.x as i128);
        r.append(x.as_str());
        r.append(", ");
        let y = i128_text(self.y as i128);
        r.append(y.as_str());
        r.append(")");
        r
    }
}

/// Reads 5, 10 and 20 from text and adds them.
pub fn demo5() -> (r: i32)
    ensures
        r == 35,
{
    proof {
        reveal_strlit("5");
        reveal_strlit("10");
        reveal_strlit("20");
        lemma_two_digits('1', '0');
        lemma_two_digits('2', '0');
        lemma_one_digit('5');
        assert("5"@ =~= seq!['5']);
        assert("10"@ =~= seq!['1', '0']);
        assert("20"@ =~= seq!['2', '0']);
        assert(crate::text::all_digits(seq!['5']));
        assert(crate::text::all_digits(seq!['1', '0']));
        assert(crate::text::all_digits(seq!['2', '0']));
    }
    let parsed = parse_i32("5").unwrap();
    let parsed2 = parse_i32("10").unwrap();
    let parsed3 = parse_i32("20").unwrap();
    parsed + parsed2 + parsed3
}

/// The value of one decimal digit.
proof fn lemma_one_digit(a: char)
    requires
        '0' <= a <= '9',
    ensures
        crate::text::digits_value(seq![a]) == a as int - 48,
{
    assert('0' as int == 48);
    assert(seq![a].drop_last() =~= Seq::<char>::empty());
    assert(crate::text::digits_value(Seq::<char>::empty()) == 0);
}

/// The value of two decimal digits.
proof fn lemma_two_digits(a: char, b: char)
    requires
        '0' <= a <= '9',
        '0' <= b <= '9',
    ensures
        crate::text::digits_value(seq![a, b]) == (a as int - 48) * 10 + (b as int - 48),
{
    assert('0' as int == 48);
    assert(a as int >= 48);
    assert(seq![a, b].drop_last() =~= seq![a]);
    assert(seq![a].drop_last() =~= Seq::<char>::empty());
    assert(crate::text::digits_value(Seq::<char>::empty()) == 0);
    assert(crate::text::digits_value(seq![a]) == (a as int - 48));
}

} // verus!
