//! Checking a new password against the rules below and rating its strength.
//!
//! 1. at least one lower-case letter `[a-z]`
//! 2. at least one digit `[0-9]`
//! 3. at least one upper-case letter `[A-Z]`
//! 4. at least one of `$`, `#`, `@`
//! 5. at least 6 bytes long
//! 6. at most 12 bytes long
use vstd::prelude::*;
use vstd::string::*;
use crate::text::{decimal_text, join_lines, joined, text_eq, trim, trimmed, u128_text};

verus! {

/// The number of character classes that the rules ask for.
pub const CLASS_COUNT: usize = 4;

/// Whether `c` is in character class `k`: 0 lower-case ASCII letters, 1
/// upper-case ASCII letters, 2 ASCII digits, 3 the special characters `#`,
/// `@`, `$`.
pub open spec fn in_class(k: int, c: char) -> bool {
    if k == 0 {
        'a' <= c <= 'z'
    } else if k == 1 {
        'A' <= c <= 'Z'
    } else if k == 2 {
        '0' <= c <= '9'
    } else {
        c == '#' || c == '@' || c == '$'
    }
}

/// The name of character class `k` in the messages.
pub open spec fn class_name(k: int) -> Seq<char> {
    if k == 0 {
        "小写字母[a-z]"@
    } else if k == 1 {
        "大写字母[A-Z]"@
    } else if k == 2 {
        "数字[0-9]"@
    } else {
        "特殊字符[$, @, #]"@
    }
}

/// Some character of `p` is in class `k`.
pub open spec fn has_class(p: Seq<char>, k: int) -> bool {
    exists|i: int| 0 <= i < p.len() && in_class(k, #[trigger] p[i])
}

/// The message lines for the classes `k..4` that `p` lacks, in class order.
pub open spec fn missing_lines(p: Seq<char>, k: int) -> Seq<Seq<char>>
    decreases 4 - k,
{
    if k >= 4 {
        seq![]
    } else {
        let here: Seq<Seq<char>> = if has_class(p, k) { seq![] } else { seq!["至少包含一个"@ + class_name(k)] };
        here + missing_lines(p, k + 1)
    }
}

/// The number of classes `k..4` that `p` has.
pub open spec fn classes_met_from(p: Seq<char>, k: int) -> int
    decreases 4 - k,
{
    if k >= 4 {
        0
    } else {
        (if has_class(p, k) { 1int } else { 0int }) + classes_met_from(p, k + 1)
    }
}

/// The length of `p` in UTF-8 bytes, as `str::len` reports it.
pub open spec fn byte_len(p: Seq<char>) -> int {
    (vstd::utf8::encode_utf8(p).len() as usize) as int
}

/// The outcome of `validate_password` for a password whose text is `p` and
/// whose UTF-8 encoding is `len` bytes long.
pub open spec fn validation(p: Seq<char>, len: int) -> Result<(), Seq<char>> {
    if len < 6 {
        Err("密码长度不足：需要至少6个字符，实际为"@ + decimal_text(len) + "个字符"@)
    } else if len > 12 {
        Err("密码太长：需要至多12个字符，实际为"@ + decimal_text(len) + "个字符"@)
    } else if missing_lines(p, 0).len() > 0 {
        Err("密码不符合要求"@ + joined(missing_lines(p, 0), "\n"@))
    } else {
        Ok(())
    }
}

/// The strength rating of a password with `met` of the classes and `len`
/// bytes.
pub open spec fn strength(len: int, met: int) -> Seq<char> {
    if met == 4 && len >= 10 {
        "强"@
    } else if (met == 4 || met == 3) && len >= 8 {
        "中"@
    } else {
        "弱"@
    }
}

/// Every class from `k` on is present exactly when no message line is left
/// for the classes from `k` on.
proof fn lemma_missing_lines_empty(p: Seq<char>, k: int)
    requires
        0 <= k <= 4,
    ensures
        missing_lines(p, k).len() == 0 <==> forall|j: int| k <= j < 4 ==> #[trigger] has_class(p, j),
    decreases 4 - k,
{
    if k < 4 {
        lemma_missing_lines_empty(p, k + 1);
        if !has_class(p, k) {
            assert(missing_lines(p, k).len() > 0);
        } else {
            assert forall|j: int| k <= j < 4 && forall|m: int| k + 1 <= m < 4 ==> #[trigger] has_class(p, m) implies #[trigger] has_class(p, j) by {
                if j > k {
                    assert(has_class(p, j));
                }
            }
        }
    }
}

/// `p` has a lower-case ASCII letter.
pub open spec fn has_lower(p: Seq<char>) -> bool {
    exists|i: int| 0 <= i < p.len() && 'a' <= #[trigger] p[i] <= 'z'
}

/// `p` has an upper-case ASCII letter.
pub open spec fn has_upper(p: Seq<char>) -> bool {
    exists|i: int| 0 <= i < p.len() && 'A' <= #[trigger] p[i] <= 'Z'
}

/// `p` has an ASCII digit.
pub open spec fn has_digit(p: Seq<char>) -> bool {
    exists|i: int| 0 <= i < p.len() && '0' <= #[trigger] p[i] <= '9'
}

/// `p` has one of `$`, `#`, `@`.
pub open spec fn has_special(p: Seq<char>) -> bool {
    exists|i: int| 0 <= i < p.len() && (#[trigger] p[i] == '$' || p[i] == '#' || p[i] == '@')
}

/// How many of the four kinds of character `p` has.
pub open spec fn kinds_present(p: Seq<char>) -> int {
    (if has_lower(p) { 1int } else { 0int }) + (if has_upper(p) { 1int } else { 0int })
        + (if has_digit(p) { 1int } else { 0int }) + (if has_special(p) { 1int } else { 0int })
}

/// The classes the rules count are the four kinds of character.
proof fn lemma_classes_are_kinds(p: Seq<char>)
    ensures
        has_class(p, 0) == has_lower(p),
        has_class(p, 1) == has_upper(p),
        has_class(p, 2) == has_digit(p),
        has_class(p, 3) == has_special(p),
        classes_met_from(p, 0) == kinds_present(p),
{
    assert(classes_met_from(p, 4) == 0);
    assert(classes_met_from(p, 3) == (if has_class(p, 3) { 1int } else { 0int }));
    assert(has_class(p, 0) == has_lower(p)) by {
        if has_lower(p) {
            let i = choose|i: int| 0 <= i < p.len() && 'a' <= #[trigger] p[i] <= 'z';
            assert(in_class(0, p[i]));
        }
    }
    assert(has_class(p, 1) == has_upper(p)) by {
        if has_upper(p) {
            let i = choose|i: int| 0 <= i < p.len() && 'A' <= #[trigger] p[i] <= 'Z';
            assert(in_class(1, p[i]));
        }
    }
    assert(has_class(p, 2) == has_digit(p)) by {
        if has_digit(p) {
            let i = choose|i: int| 0 <= i < p.len() && '0' <= #[trigger] p[i] <= '9';
            assert(in_class(2, p[i]));
        }
    }
    assert(has_class(p, 3) == has_special(p)) by {
        if has_special(p) {
            let i = choose|i: int| 0 <= i < p.len() && (#[trigger] p[i] == '$' || p[i] == '#' || p[i] == '@');
            assert(in_class(3, p[i]));
        }
    }
    assert(classes_met_from(p, 2) == (if has_class(p, 2) { 1int } else { 0int }) + classes_met_from(p, 3));
    assert(classes_met_from(p, 1) == (if has_class(p, 1) { 1int } else { 0int }) + classes_met_from(p, 2));
    assert(classes_met_from(p, 0) == (if has_class(p, 0) { 1int } else { 0int }) + classes_met_from(p, 1));
}

/// A password is accepted exactly when it is 6 to 12 bytes long and has a
/// lower-case letter, an upper-case letter, a digit and one of `$`, `#`,
/// `@`; in particular one with none of `$`, `#`, `@` is refused, whatever
/// else it holds.
pub proof fn lemma_validation_accepts_exactly(p: Seq<char>, len: int)
    ensures
        validation(p, len) is Ok <==> (6 <= len <= 12 && has_lower(p) && has_upper(p) && has_digit(p) && has_special(p)),
        (forall|i: int| 0 <= i < p.len() ==> #[trigger] p[i] != '$' && p[i] != '#' && p[i] != '@') ==> validation(p, len) is Err,
{
    lemma_classes_are_kinds(p);
    lemma_missing_lines_empty(p, 0);
    if has_lower(p) && has_upper(p) && has_digit(p) && has_special(p) {
        assert forall|j: int| 0 <= j < 4 implies #[trigger] has_class(p, j) by {}
    } else {
        assert(!(forall|j: int| 0 <= j < 4 ==> #[trigger] has_class(p, j))) by {
            if !has_lower(p) { assert(!has_class(p, 0)); }
            if !has_upper(p) { assert(!has_class(p, 1)); }
            if !has_digit(p) { assert(!has_class(p, 2)); }
            if !has_special(p) { assert(!has_class(p, 3)); }
        }
    }
}

/// The strength of a password: "弱" whenever it has at most two of the four
/// kinds of character, whatever its length; "中" only with three or four
/// kinds and at least 8 bytes, and always with three kinds and at least 8
/// bytes, or four kinds and 8 or 9 bytes; "强" exactly with all four kinds
/// and at least 10 bytes.
pub proof fn lemma_strength_by_kinds(p: Seq<char>, len: int)
    ensures
        kinds_present(p) <= 2 ==> strength(len, classes_met_from(p, 0)) == "弱"@,
        strength(len, classes_met_from(p, 0)) == "中"@ ==> kinds_present(p) >= 3 && len >= 8,
        (kinds_present(p) == 3 && len >= 8) || (kinds_present(p) == 4 && 8 <= len < 10)
            ==> strength(len, classes_met_from(p, 0)) == "中"@,
        strength(len, classes_met_from(p, 0)) == "强"@ <==> kinds_present(p) == 4 && len >= 10,
{
    lemma_classes_are_kinds(p);
    reveal_strlit("弱");
    reveal_strlit("中");
    reveal_strlit("强");
    assert("弱"@ != "中"@ && "强"@ != "中"@ && "弱"@ != "强"@) by {
        assert("弱"@[0] != "中"@[0]);
        assert("强"@[0] != "中"@[0]);
        assert("弱"@[0] != "强"@[0]);
    }
}

/// `r` is the `Result` whose error text is the given one.
pub open spec fn result_matches(r: Result<(), String>, v: Result<(), Seq<char>>) -> bool {
    match (r, v) {
        (Ok(()), Ok(())) => true,
        (Err(e), Err(t)) => e@ == t,
        _ => false,
    }
}

/// Tests `c` for class `k`.
fn char_in_class(k: usize, c: char) -> (r: bool)
    ensures
        r == in_class(k as int, c),
{
    if k == 0 {
        'a' <= c && c <= 'z'
    } else if k == 1 {
        'A' <= c && c <= 'Z'
    } else if k == 2 {
        '0' <= c && c <= '9'
    } else {
        c == '#' || c == '@' || c == '$'
    }
}

/// The name of class `k`.
fn class_label(k: usize) -> (r: &'static str)
    ensures
        r@ == class_name(k as int),
{
    if k == 0 {
        "小写字母[a-z]"
    } else if k == 1 {
        "大写字母[A-Z]"
    } else if k == 2 {
        "数字[0-9]"
    } else {
        "特殊字符[$, @, #]"
    }
}

/// Some character of `p` is in class `k`.
fn contains_class(p: &str, k: usize) -> (r: bool)
    ensures
        r == has_class(p@, k as int),
{
    let n = p.unicode_len();
    let mut i: usize = 0;
    while i < n
        invariant
            i <= n,
            n == p@.len(),
            forall|j: int| 0 <= j < i ==> !in_class(k as int, #[trigger] p@[j]),
        decreases n - i,
    {
        if char_in_class(k, p.get_char(i)) {
            return true;
        }
        i += 1;
    }
    false
}

/// A message made of `head`, the decimal text of `n`, and `tail`.
fn message_with_number(head: &str, n: usize, tail: &str) -> (r: String)
    ensures
        r@ == head@ + decimal_text(n as int) + tail@,
{
    let mut r = String::from_str(head);
    let digits = u128_text(n as u128);
    r.append(digits.as_str());
    r.append(tail);
    r
}

/// Checks a password against the rules; the error lists what is wrong.
pub fn validate_password(password: &str) -> (r: Result<(), String>)
    ensures
        result_matches(r, validation(password@, byte_len(password@))),
{
    let len = password.len();
    if len < 6 {
        return Err(message_with_number("密码长度不足：需要至少6个字符，实际为", len, "个字符"));
    }
    if len > 12 {
        return Err(message_with_number("密码太长：需要至多12个字符，实际为", len, "个字符"));
    }
    let mut errs: Vec<String> = Vec::new();
    let mut k: usize = 0;
    while k < CLASS_COUNT
        invariant
            k <= 4,
            errs@.map_values(|l: String| l@) + missing_lines(password@, k as int) == missing_lines(password@, 0),
        decreases 4 - k,
    {
        let ghost before = errs@.map_values(|l: String| l@);
        if !contains_class(password, k) {
            let mut line = String::from_str("至少包含一个");
            line.append(class_label(k));
            errs.push(line);
            assert(errs@.map_values(|l: String| l@) =~= before.push("至少包含一个"@ + class_name(k as int)));
        } else {
            assert(errs@.map_values(|l: String| l@) =~= before);
        }
        assert(errs@.map_values(|l: String| l@) + missing_lines(password@, k + 1) =~= before + missing_lines(password@, k as int));
        k += 1;
    }
    assert(errs@.map_values(|l: String| l@) =~= missing_lines(password@, 0));
    if errs.len() != 0 {
        let err_msg = join_lines(&errs, "\n");
        let mut r = String::from_str("密码不符合要求");
        r.append(err_msg.as_str());
        return Err(r);
    }
    Ok(())
}

/// Rates a password: "强" with all four classes and at least 10 bytes, "中"
/// with three or four classes and at least 8 bytes, "弱" otherwise.
pub fn evaluate_password_strength(password: &str) -> (r: &'static str)
    ensures
        r@ == strength(byte_len(password@), classes_met_from(password@, 0)),
{
    let length = password.len();
    let mut criteria_met: usize = 0;
    let mut k: usize = 0;
    while k < CLASS_COUNT
        invariant
            k <= 4,
            criteria_met <= k,
            criteria_met + classes_met_from(password@, k as int) == classes_met_from(password@, 0),
        decreases 4 - k,
    {
        if contains_class(password, k) {
            criteria_met += 1;
        }
        k += 1;
    }
    if criteria_met == 4 && length >= 10 {
        "强"
    } else if (criteria_met == 4 || criteria_met == 3) && length >= 8 {
        "中"
    } else {
        "弱"
    }
}

/// Sets a new password typed twice: both entries are trimmed, must agree, and
/// must pass `validate_password`; the result is the password's strength.
pub fn change_password(first_input: &str, second_input: &str) -> (r: Result<&'static str, String>)
    ensures
        ({
            let first = trimmed(first_input@);
            let second = trimmed(second_input@);
            if first != second {
                r matches Err(e) && e@ == "两次输入密码不一致"@
            } else {
                match r {
                    Ok(s) => validation(first, byte_len(first)) == Ok::<(), Seq<char>>(())
                        && s@ == strength(byte_len(first), classes_met_from(first, 0)),
                    Err(e) => validation(first, byte_len(first)) == Err::<(), Seq<char>>(e@),
                }
            }
        }),
{
    let first_input = trim(first_input);
    let second_input = trim(second_input);
    if !text_eq(first_input, second_input) {
        return Err(String::from_str("两次输入密码不一致"));
    }
    match validate_password(first_input) {
        Ok(()) => {},
        Err(e) => {
            return Err(e);
        },
    }
    let strength = evaluate_password_strength(first_input);
    Ok(strength)
}

} // verus!
