//! Text helpers shared by the modules of this crate: decimal formatting and
//! parsing of integers, whitespace trimming, comparison of text, and the
//! lower-case mapping of `str::to_lowercase`.
use vstd::prelude::*;
use vstd::string::*;

verus! {

/// The character for a decimal digit `d` (0 to 9).
pub open spec fn digit_char(d: int) -> char {
    (48 + d) as char
}

/// The decimal digits of `n`, most significant first, without leading zeros.
pub open spec fn decimal_digits(n: nat) -> Seq<char>
    decreases n,
{
    if n < 10 {
        seq![digit_char(n as int)]
    } else {
        decimal_digits(n / 10).push(digit_char((n % 10) as int))
    }
}

/// The decimal text of an integer, as `to_string` writes it.
pub open spec fn decimal_text(i: int) -> Seq<char> {
    if i < 0 {
        seq!['-'] + decimal_digits((-i) as nat)
    } else {
        decimal_digits(i as nat)
    }
}

/// The one-character text of a decimal digit.
fn digit_str(d: u128) -> (r: &'static str)
    requires
        d < 10,
    ensures
        r@ == seq![digit_char(d as int)],
{
    proof {
        reveal_strlit("0");
        reveal_strlit("1");
        reveal_strlit("2");
        reveal_strlit("3");
        reveal_strlit("4");
        reveal_strlit("5");
        reveal_strlit("6");
        reveal_strlit("7");
        reveal_strlit("8");
        reveal_strlit("9");
    }
    if d == 0 { "0" } else if d == 1 { "1" } else if d == 2 { "2" } else if d == 3 { "3" }
    else if d == 4 { "4" } else if d == 5 { "5" } else if d == 6 { "6" } else if d == 7 { "7" }
    else if d == 8 { "8" } else { "9" }
}

/// Writes `n` in decimal.
pub fn u128_text(n: u128) -> (r: String)
    ensures
        r@ == decimal_digits(n as nat),
    decreases n,
{
    if n < 10 {
        String::from_str(digit_str(n))
    } else {
        let mut r = u128_text(n / 10);
        r.append(digit_str(n % 10));
        r
    }
}

/// Writes `i` in decimal, with a leading `-` when it is negative.
pub fn i128_text(i: i128) -> (r: String)
    ensures
        r@ == decimal_text(i as int),
{
    if i < 0 {
        let magnitude: u128 = if i == i128::MIN { 170141183460469231731687303715884105728u128 } else { (-i) as u128 };
        let mut r = String::from_str("-");
        proof { reveal_strlit("-"); }
        let digits = u128_text(magnitude);
        r.append(digits.as_str());
        r
    } else {
        u128_text(i as u128)
    }
}

/// `c` has the Unicode `White_Space` property, which `char::is_whitespace`
/// and `str::trim` go by.
pub open spec fn is_white_space(c: char) -> bool {
    let u = c as u32;
    ||| 0x9 <= u <= 0xD
    ||| u == 0x20
    ||| u == 0x85
    ||| u == 0xA0
    ||| u == 0x1680
    ||| 0x2000 <= u <= 0x200A
    ||| u == 0x2028
    ||| u == 0x2029
    ||| u == 0x202F
    ||| u == 0x205F
    ||| u == 0x3000
}

/// Tests `c` for the `White_Space` property.
pub fn white_space(c: char) -> (r: bool)
    ensures
        r == is_white_space(c),
{
    let u = c as u32;
    (0x9 <= u && u <= 0xD) || u == 0x20 || u == 0x85 || u == 0xA0 || u == 0x1680 || (0x2000 <= u
        && u <= 0x200A) || u == 0x2028 || u == 0x2029 || u == 0x202F || u == 0x205F || u == 0x3000
}

/// The words of `s[..n]` found so far, and the word in progress: a word is a
/// run of characters without white space, ended by white space or by the
/// end of the text.
pub open spec fn words_upto(s: Seq<char>, n: nat) -> (Seq<Seq<char>>, Seq<char>)
    decreases n,
{
    if n == 0 {
        (seq![], seq![])
    } else {
        let (done, cur) = words_upto(s, (n - 1) as nat);
        if is_white_space(s[n - 1]) {
            if cur.len() > 0 { (done.push(cur), seq![]) } else { (done, seq![]) }
        } else {
            (done, cur.push(s[n - 1]))
        }
    }
}

/// The words of `s`, as `str::split_whitespace` yields them: its runs of
/// characters without white space, in order.
pub open spec fn words(s: Seq<char>) -> Seq<Seq<char>> {
    let (done, cur) = words_upto(s, s.len());
    if cur.len() > 0 { done.push(cur) } else { done }
}

/// The words of `s`, as `str::split_whitespace` yields them.
pub fn split_words<'a>(s: &'a str) -> (r: Vec<&'a str>)
    ensures
        r@.map_values(|w: &str| w@) == words(s@),
{
    let n = s.unicode_len();
    let mut r: Vec<&'a str> = Vec::new();
    let mut start: usize = 0;
    let mut i: usize = 0;
    while i < n
        invariant
            n == s@.len(),
            start <= i <= n,
            r@.map_values(|w: &str| w@) == words_upto(s@, i as nat).0,
            s@.subrange(start as int, i as int) == words_upto(s@, i as nat).1,
        decreases n - i,
    {
        let ghost before = r@.map_values(|w: &str| w@);
        let c = s.get_char(i);
        if white_space(c) {
            if start < i {
                let w = s.substring_char(start, i);
                r.push(w);
                assert(r@.map_values(|w: &str| w@) =~= before.push(w@));
            } else {
                assert(s@.subrange(start as int, i as int) =~= Seq::<char>::empty());
            }
            start = i + 1;
            assert(s@.subrange(start as int, i + 1) =~= Seq::<char>::empty());
        } else {
            assert(s@.subrange(start as int, i + 1) =~= s@.subrange(start as int, i as int).push(c));
        }
        i += 1;
    }
    let ghost before = r@.map_values(|w: &str| w@);
    if start < n {
        let w = s.substring_char(start, n);
        r.push(w);
        assert(r@.map_values(|w: &str| w@) =~= before.push(w@));
    } else {
        assert(s@.subrange(start as int, n as int) =~= Seq::<char>::empty());
    }
    r
}

/// `s` without its leading and trailing white space, as `str::trim` gives it.
pub open spec fn trimmed(s: Seq<char>) -> Seq<char>
    decreases s.len(),
{
    if s.len() > 0 && is_white_space(s[0]) {
        trimmed(s.drop_first())
    } else if s.len() > 0 && is_white_space(s.last()) {
        trimmed(s.drop_last())
    } else {
        s
    }
}

/// Removes leading and trailing white space.
pub fn trim(s: &str) -> (r: &str)
    ensures
        r@ == trimmed(s@),
{
    let n = s.unicode_len();
    let mut i: usize = 0;
    assert(s@.subrange(0, n as int) =~= s@);
    while i < n && white_space(s.get_char(i))
        invariant
            i <= n,
            n == s@.len(),
            trimmed(s@) == trimmed(s@.subrange(i as int, n as int)),
        decreases n - i,
    {
        assert(s@.subrange(i as int, n as int).drop_first() =~= s@.subrange(i + 1, n as int));
        i += 1;
    }
    let mut j: usize = n;
    while j > i && white_space(s.get_char(j - 1))
        invariant
            i <= j <= n,
            n == s@.len(),
            i < j ==> !is_white_space(s@[i as int]),
            trimmed(s@) == trimmed(s@.subrange(i as int, j as int)),
        decreases j,
    {
        let ghost t = s@.subrange(i as int, j as int);
        assert(t.drop_last() =~= s@.subrange(i as int, j - 1));
        assert(t[0] == s@[i as int]);
        j -= 1;
    }
    let ghost t = s@.subrange(i as int, j as int);
    assert(t.len() > 0 ==> t[0] == s@[i as int] && t.last() == s@[j - 1]);
    s.substring_char(i, j)
}

/// `a` and `b` hold the same characters.
pub fn text_eq(a: &str, b: &str) -> (r: bool)
    ensures
        r == (a@ == b@),
{
    let n = a.unicode_len();
    if n != b.unicode_len() {
        return false;
    }
    let mut i: usize = 0;
    while i < n
        invariant
            i <= n,
            n == a@.len(),
            n == b@.len(),
            a@.subrange(0, i as int) == b@.subrange(0, i as int),
        decreases n - i,
    {
        if a.get_char(i) != b.get_char(i) {
            return false;
        }
        assert(a@.subrange(0, i + 1) =~= a@.subrange(0, i as int).push(a@[i as int]));
        assert(b@.subrange(0, i + 1) =~= b@.subrange(0, i as int).push(b@[i as int]));
        i += 1;
    }
    assert(a@ =~= a@.subrange(0, n as int));
    assert(b@ =~= b@.subrange(0, n as int));
    true
}

/// `c` is an ASCII decimal digit.
pub open spec fn is_digit(c: char) -> bool {
    '0' <= c <= '9'
}

/// Every character of `s` is an ASCII decimal digit.
pub open spec fn all_digits(s: Seq<char>) -> bool {
    forall|i: int| 0 <= i < s.len() ==> is_digit(#[trigger] s[i])
}

/// The number that the decimal digits `s` write.
pub open spec fn digits_value(s: Seq<char>) -> nat
    decreases s.len(),
{
    if s.len() == 0 {
        0
    } else {
        digits_value(s.drop_last()) * 10 + ((s.last() as int - 48) as nat)
    }
}

/// The integer that `str::parse` reads from `s`: an optional `+` (or, when
/// `signed`, `-`) followed by one or more decimal digits and nothing else.
/// The range of the target type is checked separately.
pub open spec fn parsed_int(s: Seq<char>, signed: bool) -> Option<int> {
    if s.len() > 0 && (s[0] == '+' || (signed && s[0] == '-')) {
        let d = s.drop_first();
        if d.len() > 0 && all_digits(d) {
            Some(if s[0] == '-' { -(digits_value(d) as int) } else { digits_value(d) as int })
        } else {
            None
        }
    } else if s.len() > 0 && all_digits(s) {
        Some(digits_value(s) as int)
    } else {
        None
    }
}

/// `parsed_int` restricted to the range `lo..=hi` of a target type.
pub open spec fn parsed_in(s: Seq<char>, signed: bool, lo: int, hi: int) -> Option<int> {
    match parsed_int(s, signed) {
        Some(v) => if lo <= v <= hi { Some(v) } else { None },
        None => None,
    }
}

proof fn lemma_digits_value_grows(s: Seq<char>, k: int)
    requires
        0 <= k <= s.len(),
        all_digits(s),
    ensures
        digits_value(s.take(k)) <= digits_value(s),
    decreases s.len() - k,
{
    if k < s.len() {
        lemma_digits_value_grows(s, k + 1);
        assert(s.take(k + 1).drop_last() =~= s.take(k));
        assert(s.take(k + 1).last() == s[k]);
        assert(is_digit(s[k]));
    } else {
        assert(s.take(k) =~= s);
    }
}

/// Reads the decimal digits `s[start..]` as an unsigned number; `None` when
/// that part is empty, holds another character, or is too large for `u128`.
fn digits_from(s: &str, start: usize) -> (r: Option<u128>)
    requires
        start <= s@.len(),
    ensures
        ({
            let d = s@.subrange(start as int, s@.len() as int);
            match r {
                Some(v) => d.len() > 0 && all_digits(d) && v == digits_value(d),
                None => !(d.len() > 0 && all_digits(d)) || digits_value(d) > u128::MAX,
            }
        }),
{
    let n = s.unicode_len();
    let ghost d = s@.subrange(start as int, n as int);
    if start == n {
        return None;
    }
    let mut acc: u128 = 0;
    let mut i: usize = start;
    while i < n
        invariant
            start <= i <= n,
            n == s@.len(),
            d == s@.subrange(start as int, n as int),
            all_digits(d.take(i - start)),
            acc == digits_value(d.take(i - start)),
        decreases n - i,
    {
        let c = s.get_char(i);
        assert(d[i - start] == c);
        if !('0' <= c && c <= '9') {
            return None;
        }
        let digit = (c as u32 - 48) as u128;
        assert(d.take(i + 1 - start).drop_last() =~= d.take(i - start));
        assert(all_digits(d.take(i + 1 - start)));
        match acc.checked_mul(10) {
            Some(m) => match m.checked_add(digit) {
                Some(v) => {
                    acc = v;
                },
                None => {
                    proof { lemma_overflow_rest(d, i + 1 - start); }
                    return None;
                },
            },
            None => {
                proof { lemma_overflow_rest(d, i + 1 - start); }
                return None;
            },
        }
        i += 1;
    }
    assert(d.take(n - start) =~= d);
    Some(acc)
}

/// Once a prefix of a run of digits is too large for `u128`, so is the run.
proof fn lemma_overflow_rest(d: Seq<char>, k: int)
    requires
        0 <= k <= d.len(),
        all_digits(d.take(k)),
        digits_value(d.take(k)) > u128::MAX,
    ensures
        !all_digits(d) || digits_value(d) > u128::MAX,
{
    if all_digits(d) {
        lemma_digits_value_grows(d, k);
    }
}

/// Reads a signed (`signed`) or unsigned integer the way `str::parse` does,
/// as a sign and a magnitude; `None` when the text is not such an integer or
/// its magnitude is too large for `u128`.
fn parse_sign_magnitude(s: &str, signed: bool) -> (r: Option<(bool, u128)>)
    ensures
        match r {
            Some((neg, m)) => parsed_int(s@, signed) == Some(if neg { -(m as int) } else { m as int }),
            None => match parsed_int(s@, signed) {
                Some(v) => v > u128::MAX || v < -(u128::MAX as int),
                None => true,
            },
        },
{
    let n = s.unicode_len();
    if n == 0 {
        return None;
    }
    let first = s.get_char(0);
    if first == '+' || (signed && first == '-') {
        assert(s@.drop_first() =~= s@.subrange(1, n as int));
        match digits_from(s, 1) {
            Some(m) => Some((first == '-', m)),
            None => None,
        }
    } else {
        assert(s@ =~= s@.subrange(0, n as int));
        match digits_from(s, 0) {
            Some(m) => Some((false, m)),
            None => None,
        }
    }
}

/// `s.parse::<i64>()`, as an `Option`.
pub fn parse_i64(s: &str) -> (r: Option<i64>)
    ensures
        r is Some <==> parsed_in(s@, true, i64::MIN as int, i64::MAX as int) is Some,
        r matches Some(v) ==> parsed_in(s@, true, i64::MIN as int, i64::MAX as int) == Some(v as int),
{
    match parse_sign_magnitude(s, true) {
        Some((neg, m)) => {
            if neg {
                if m <= 9223372036854775808u128 {
                    if m == 9223372036854775808u128 { Some(i64::MIN) } else { Some(-(m as i64)) }
                } else {
                    None
                }
            } else if m <= i64::MAX as u128 {
                Some(m as i64)
            } else {
                None
            }
        },
        None => None,
    }
}

/// `s.parse::<i32>()`, as an `Option`.
pub fn parse_i32(s: &str) -> (r: Option<i32>)
    ensures
        r is Some <==> parsed_in(s@, true, i32::MIN as int, i32::MAX as int) is Some,
        r matches Some(v) ==> parsed_in(s@, true, i32::MIN as int, i32::MAX as int) == Some(v as int),
{
    match parse_sign_magnitude(s, true) {
        Some((neg, m)) => {
            if neg {
                if m <= 2147483648u128 {
                    if m == 2147483648u128 { Some(i32::MIN) } else { Some(-(m as i32)) }
                } else {
                    None
                }
            } else if m <= i32::MAX as u128 {
                Some(m as i32)
            } else {
                None
            }
        },
        None => None,
    }
}

/// `s.parse::<u64>()`, as an `Option`.
pub fn parse_u64(s: &str) -> (r: Option<u64>)
    ensures
        r is Some <==> parsed_in(s@, false, 0, u64::MAX as int) is Some,
        r matches Some(v) ==> parsed_in(s@, false, 0, u64::MAX as int) == Some(v as int),
{
    match parse_sign_magnitude(s, false) {
        Some((_, m)) => if m <= u64::MAX as u128 { Some(m as u64) } else { None },
        None => None,
    }
}

/// `s.parse::<u128>()`, as an `Option`.
pub fn parse_u128(s: &str) -> (r: Option<u128>)
    ensures
        r is Some <==> parsed_in(s@, false, 0, u128::MAX as int) is Some,
        r matches Some(v) ==> parsed_in(s@, false, 0, u128::MAX as int) == Some(v as int),
{
    match parse_sign_magnitude(s, false) {
        Some((_, m)) => Some(m),
        None => None,
    }
}

/// `s.parse::<u8>()`, as an `Option`.
pub fn parse_u8(s: &str) -> (r: Option<u8>)
    ensures
        r is Some <==> parsed_in(s@, false, 0, u8::MAX as int) is Some,
        r matches Some(v) ==> parsed_in(s@, false, 0, u8::MAX as int) == Some(v as int),
{
    match parse_sign_magnitude(s, false) {
        Some((_, m)) => if m <= u8::MAX as u128 { Some(m as u8) } else { None },
        None => None,
    }
}

/// What `str::to_lowercase` makes of a text: its Unicode lower-case mapping.
pub uninterp spec fn lowercase(s: Seq<char>) -> Seq<char>;

/// `c` is an ASCII character.
pub open spec fn is_ascii_char(c: char) -> bool {
    (c as u32) < 128
}

/// An ASCII character in lower case: `A` to `Z` become `a` to `z`, any
/// other character stays.
pub open spec fn ascii_lower(c: char) -> char {
    if 'A' <= c && c <= 'Z' { ((c as u32) + 32) as char } else { c }
}

/// Calls `str::to_lowercase`; the result is `lowercase` of the text. On a
/// text of ASCII characters alone, that mapping turns `A` to `Z` into `a` to
/// `z` and leaves every other character as it is.
#[verifier::external_body]
pub fn to_lowercase(s: &str) -> (r: String)
    ensures
        r@ == lowercase(s@),
        (forall|i: int| 0 <= i < s@.len() ==> is_ascii_char(#[trigger] s@[i])) ==> r@ == s@.map_values(|c: char| ascii_lower(c)),
{
    s.to_lowercase()
}

/// The lines of `lines` joined by `sep`.
pub open spec fn joined(lines: Seq<Seq<char>>, sep: Seq<char>) -> Seq<char>
    decreases lines.len(),
{
    if lines.len() == 0 {
        seq![]
    } else if lines.len() == 1 {
        lines[0]
    } else {
        joined(lines.drop_last(), sep) + sep + lines.last()
    }
}

/// Joins `lines` with `sep` between neighbours.
pub fn join_lines(lines: &Vec<String>, sep: &str) -> (r: String)
    ensures
        r@ == joined(lines@.map_values(|l: String| l@), sep@),
{
    let ghost views = lines@.map_values(|l: String| l@);
    let mut r = String::new();
    let mut i: usize = 0;
    while i < lines.len()
        invariant
            i <= lines.len(),
            views == lines@.map_values(|l: String| l@),
            r@ == joined(views.take(i as int), sep@),
        decreases lines.len() - i,
    {
        assert(views.take(i + 1).drop_last() =~= views.take(i as int));
        if i != 0 {
            r.append(sep);
        } else {
            assert(views.take(0) =~= Seq::<Seq<char>>::empty());
            assert(r@ =~= Seq::<char>::empty());
        }
        r.append(lines[i].as_str());
        assert(r@ =~= joined(views.take(i + 1), sep@));
        i += 1;
    }
    assert(views.take(lines.len() as int) =~= views);
    r
}

/// The pieces of `s` between occurrences of `sep`, as `str::split` yields
/// them: one more piece than there are separators, empty pieces included.
pub open spec fn split_pieces(s: Seq<char>, sep: char) -> Seq<Seq<char>>
    decreases s.len(),
{
    if s.len() == 0 {
        seq![Seq::<char>::empty()]
    } else {
        let p = split_pieces(s.drop_last(), sep);
        if s.last() == sep {
            p.push(Seq::<char>::empty())
        } else {
            p.update(p.len() - 1, p.last().push(s.last()))
        }
    }
}

/// `split_pieces` never yields an empty list.
pub proof fn lemma_split_pieces_nonempty(s: Seq<char>, sep: char)
    ensures
        split_pieces(s, sep).len() >= 1,
    decreases s.len(),
{
    if s.len() > 0 {
        lemma_split_pieces_nonempty(s.drop_last(), sep);
    }
}

/// Splits `s` at every `sep`.
pub fn split_at_char<'a>(s: &'a str, sep: char) -> (r: Vec<&'a str>)
    ensures
        r@.map_values(|p: &str| p@) == split_pieces(s@, sep),
{
    let n = s.unicode_len();
    let mut pieces: Vec<&'a str> = Vec::new();
    let mut start: usize = 0;
    let mut i: usize = 0;
    assert(s@.take(0) =~= Seq::<char>::empty());
    assert(s@.subrange(0, 0) =~= Seq::<char>::empty());
    while i < n
        invariant
            start <= i <= n,
            n == s@.len(),
            split_pieces(s@.take(i as int), sep) == pieces@.map_values(|p: &str| p@).push(s@.subrange(start as int, i as int)),
        decreases n - i,
    {
        let c = s.get_char(i);
        let ghost before = pieces@.map_values(|p: &str| p@);
        assert(s@.take(i + 1).drop_last() =~= s@.take(i as int));
        assert(s@.take(i + 1).last() == c);
        if c == sep {
            let piece = s.substring_char(start, i);
            pieces.push(piece);
            assert(pieces@.map_values(|p: &str| p@) =~= before.push(s@.subrange(start as int, i as int)));
            start = i + 1;
            assert(s@.subrange(start as int, i + 1) =~= Seq::<char>::empty());
        } else {
            assert(s@.subrange(start as int, i + 1) =~= s@.subrange(start as int, i as int).push(c));
            assert(before.push(s@.subrange(start as int, i as int)).update(before.len() as int, s@.subrange(start as int, i + 1)) =~= before.push(s@.subrange(start as int, i + 1)));
        }
        i += 1;
    }
    let last = s.substring_char(start, n);
    let ghost before = pieces@.map_values(|p: &str| p@);
    pieces.push(last);
    assert(pieces@.map_values(|p: &str| p@) =~= before.push(s@.subrange(start as int, n as int)));
    assert(s@.take(n as int) =~= s@);
    pieces
}

/// `p` is a prefix of `s`.
pub open spec fn has_prefix(s: Seq<char>, p: Seq<char>) -> bool {
    p.len() <= s.len() && s.take(p.len() as int) == p
}

/// `s` starts with `p`, as `str::starts_with` tests it.
pub fn starts_with(s: &str, p: &str) -> (r: bool)
    ensures
        r == has_prefix(s@, p@),
{
    let n = p.unicode_len();
    if n > s.unicode_len() {
        return false;
    }
    let mut i: usize = 0;
    while i < n
        invariant
            i <= n <= s@.len(),
            n == p@.len(),
            s@.take(i as int) == p@.take(i as int),
        decreases n - i,
    {
        if s.get_char(i) != p.get_char(i) {
            assert(s@.take(n as int)[i as int] != p@[i as int]);
            return false;
        }
        assert(s@.take(i + 1) =~= s@.take(i as int).push(s@[i as int]));
        assert(p@.take(i + 1) =~= p@.take(i as int).push(p@[i as int]));
        i += 1;
    }
    assert(p@.take(n as int) =~= p@);
    true
}

/// `line` without one trailing carriage return.
pub open spec fn without_cr(line: Seq<char>) -> Seq<char> {
    if line.len() > 0 && line.last() == '\r' { line.drop_last() } else { line }
}

/// The `k`th of the pieces `p` that `s` splits into at `\n`, as a line: a
/// piece that a `\n` ends loses one trailing `\r`; the last piece, which no
/// `\n` ends, stays as it is.
pub open spec fn line_of_piece(p: Seq<Seq<char>>, k: int) -> Seq<char> {
    if k + 1 < p.len() { without_cr(p[k]) } else { p[k] }
}

/// The lines of `s` as `str::lines` yields them: split at `\n`, without a
/// last empty piece, each line that a `\n` ends without a trailing `\r`.
pub open spec fn text_lines(s: Seq<char>) -> Seq<Seq<char>> {
    let p = split_pieces(s, '\n');
    let n = if p.last().len() == 0 { p.len() - 1 } else { p.len() as int };
    Seq::new(n as nat, |k: int| line_of_piece(p, k))
}

/// Drops one trailing carriage return.
pub fn strip_cr<'a>(line: &'a str) -> (r: &'a str)
    ensures
        r@ == without_cr(line@),
{
    let n = line.unicode_len();
    if n > 0 && line.get_char(n - 1) == '\r' {
        line.substring_char(0, n - 1)
    } else {
        line
    }
}

/// The lines of `s`, as `str::lines` yields them.
pub fn lines_of<'a>(s: &'a str) -> (r: Vec<&'a str>)
    ensures
        r@.map_values(|l: &str| l@) == text_lines(s@),
{
    let pieces = split_at_char(s, '\n');
    proof { lemma_split_pieces_nonempty(s@, '\n'); }
    let ghost pv = pieces@.map_values(|p: &str| p@);
    assert(pv == split_pieces(s@, '\n'));
    let count = if pieces[pieces.len() - 1].unicode_len() == 0 { pieces.len() - 1 } else { pieces.len() };
    let mut r: Vec<&'a str> = Vec::new();
    let mut i: usize = 0;
    while i < count
        invariant
            i <= count <= pieces@.len(),
            pv == pieces@.map_values(|p: &str| p@),
            r@.len() == i,
            forall|k: int| 0 <= k < i ==> #[trigger] r@[k]@ == line_of_piece(pv, k),
        decreases count - i,
    {
        let line = if i + 1 < pieces.len() { strip_cr(pieces[i]) } else { pieces[i] };
        assert(pieces@[i as int]@ == pv[i as int]);
        r.push(line);
        i += 1;
    }
    assert(r@.map_values(|l: &str| l@) =~= text_lines(s@)) by {
        assert(pv.last() == pieces@[pieces@.len() - 1]@);
    }
    r
}

/// `q` occurs in `s` as a run of consecutive characters.
pub open spec fn contains_text(s: Seq<char>, q: Seq<char>) -> bool {
    exists|i: int| 0 <= i && i + q.len() <= s.len() && #[trigger] s.subrange(i, i + q.len()) == q
}

/// `q` occurs in `s`, as `str::contains` tests it.
pub fn contains(s: &str, q: &str) -> (r: bool)
    ensures
        r == contains_text(s@, q@),
{
    let n = s.unicode_len();
    let m = q.unicode_len();
    if m > n {
        return false;
    }
    let last = n - m;
    let mut i: usize = 0;
    loop
        invariant
            n == s@.len(),
            m == q@.len(),
            m <= n,
            last == n - m,
            i <= last,
            forall|j: int| 0 <= j < i ==> #[trigger] s@.subrange(j, j + m) != q@,
        decreases last - i,
    {
        if text_eq(s.substring_char(i, i + m), q) {
            return true;
        }
        if i == last {
            return false;
        }
        i += 1;
    }
}

} // verus!
