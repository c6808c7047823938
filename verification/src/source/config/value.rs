//! Configuration values and their conversions to plain types.
//!
//! A floating-point value is held by the bit pattern of its `f64`. Conversions
//! whose result for a float needs floating-point arithmetic (rounding, text,
//! `as f64`) are made outside this crate; here they require a value that is
//! not a float.
use vstd::prelude::*;
use vstd::string::*;
use crate::source::config::error::{ConfigError, Unexpected, is_type_error, is_text_type_error};
use crate::text::{decimal_digits, decimal_text, i128_text, lowercase, parse_i64, parse_u128, parse_u64, parsed_in, text_eq, to_lowercase, u128_text};

verus! {

/// The items of an array value.
pub type Array = Vec<Value>;

/// The entries of a table value, by key.
pub type Table = Vec<(String, Value)>;

/// The kinds of configuration value.
#[derive(Debug)]
pub enum ValueKind {
    Nil,
    Boolean(bool),
    I64(i64),
    I128(i128),
    U64(u64),
    U128(u128),
    /// The bit pattern of an `f64`.
    Float(u64),
    String(String),
    Table(Table),
    Array(Array),
}

/// A configuration value and the place it came from, if known.
#[derive(Debug)]
pub struct Value {
    origin: Option<String>,
    pub kind: ValueKind,
}

/// A value as the place it came from and its kind.
impl View for Value {
    type V = (Option<String>, ValueKind);

    closed spec fn view(&self) -> (Option<String>, ValueKind) {
        (self.origin, self.kind)
    }
}

/// The texts that read as `true` in every conversion that accepts them.
pub open spec fn is_yes_word(t: Seq<char>) -> bool {
    t == "true"@ || t == "on"@ || t == "yes"@
}

/// The texts that read as `false` in every conversion that accepts them.
pub open spec fn is_no_word(t: Seq<char>) -> bool {
    t == "false"@ || t == "off"@ || t == "no"@
}

/// `t` is one of the words of `is_yes_word`.
fn yes_word(t: &str) -> (r: bool)
    ensures
        r == is_yes_word(t@),
{
    text_eq(t, "true") || text_eq(t, "on") || text_eq(t, "yes")
}

/// `t` is one of the words of `is_no_word`.
fn no_word(t: &str) -> (r: bool)
    ensures
        r == is_no_word(t@),
{
    text_eq(t, "false") || text_eq(t, "off") || text_eq(t, "no")
}

/// What a kind other than text, array or table is reported as in a type
/// error.
pub open spec fn unexpected_of(kind: ValueKind) -> Unexpected {
    match kind {
        ValueKind::Nil => Unexpected::Unit,
        ValueKind::Boolean(b) => Unexpected::Bool(b),
        ValueKind::I64(i) => Unexpected::I64(i),
        ValueKind::I128(i) => Unexpected::I128(i),
        ValueKind::U64(u) => Unexpected::U64(u),
        ValueKind::U128(u) => Unexpected::U128(u),
        ValueKind::Float(f) => Unexpected::Float(f),
        ValueKind::Table(_) => Unexpected::Mapping,
        _ => Unexpected::Sequence,
    }
}

/// The bit pattern of an `f64` that compares unequal to `0.0` (any pattern
/// but those of `+0.0` and `-0.0`).
pub open spec fn float_bits_nonzero(bits: u64) -> bool {
    bits != 0 && bits != 0x8000_0000_0000_0000
}

/// No key occurs twice among the entries of `t`.
pub open spec fn keys_distinct<V>(t: Seq<(String, V)>) -> bool {
    forall|i: int, j: int| 0 <= i < j < t.len() ==> t[i].0@ != t[j].0@
}

/// `i` is where the key `k` first occurs among the entries of `t`, or `t`'s
/// length where no entry has that key.
pub open spec fn first_key_at<V>(t: Seq<(String, V)>, k: Seq<char>, i: int) -> bool {
    &&& 0 <= i <= t.len()
    &&& forall|j: int| 0 <= j < i ==> t[j].0@ != k
    &&& i < t.len() ==> t[i].0@ == k
}

/// Puts `value` under `key` in a table, as a map does: the entry with that
/// key gets the new value and keeps its place, and its old value is
/// returned; where no entry has the key, one is appended and `None` is
/// returned. A table whose keys are distinct stays so.
pub fn table_insert<V>(table: &mut Vec<(String, V)>, key: String, value: V) -> (r: Option<V>)
    ensures
        exists|i: int| first_key_at(old(table)@, key@, i),
        forall|i: int| #[trigger] first_key_at(old(table)@, key@, i) ==> if i < old(table)@.len() {
            &&& r == Some(old(table)@[i].1)
            &&& final(table)@.len() == old(table)@.len()
            &&& final(table)@[i].0@ == key@
            &&& final(table)@[i].1 == value
            &&& forall|j: int| 0 <= j < old(table)@.len() && j != i ==> final(table)@[j] == old(table)@[j]
        } else {
            &&& r is None
            &&& final(table)@ == old(table)@.push((key, value))
        },
        keys_distinct(old(table)@) ==> keys_distinct(final(table)@),
{
    let mut i: usize = 0;
    while i < table.len()
        invariant
            i <= table@.len(),
            table@ == old(table)@,
            forall|j: int| 0 <= j < i ==> table@[j].0@ != key@,
        decreases table.len() - i,
    {
        if text_eq(table[i].0.as_str(), key.as_str()) {
            assert(first_key_at(old(table)@, key@, i as int));
            assert forall|n: int| #[trigger] first_key_at(old(table)@, key@, n) implies n == i by {
                if n < i {
                    assert(old(table)@[n].0@ == key@);
                } else if n > i {
                    assert(old(table)@[i as int].0@ != key@);
                }
            }
            let (_k, before) = table.remove(i);
            table.insert(i, (key, value));
            return Some(before);
        }
        i += 1;
    }
    assert(first_key_at(old(table)@, key@, i as int));
    assert forall|n: int| #[trigger] first_key_at(old(table)@, key@, n) implies n == i by {
        if n < i {
            assert(old(table)@[n].0@ == key@);
        }
    }
    table.push((key, value));
    None
}

/// The kind a deserialized unsigned integer of at most 64 bits becomes: an
/// `I64` where it fits in `i64`; `None` where it does not, which is refused.
pub fn kind_of_unsigned(v: u64) -> (r: Option<ValueKind>)
    ensures
        r == (if v <= i64::MAX { Some(ValueKind::I64(v as i64)) } else { None::<ValueKind> }),
{
    if v <= i64::MAX as u64 {
        Some(ValueKind::I64(v as i64))
    } else {
        None
    }
}

/// The kind a deserialized `u128` becomes: an `I128` where it fits in
/// `i128`; `None` where it does not, which is refused.
pub fn kind_of_unsigned128(v: u128) -> (r: Option<ValueKind>)
    ensures
        r == (if v <= i128::MAX { Some(ValueKind::I128(v as i128)) } else { None::<ValueKind> }),
{
    if v <= i128::MAX as u128 {
        Some(ValueKind::I128(v as i128))
    } else {
        None
    }
}

/// Reads the lower-cased text `t` of a value from `origin` as a boolean:
/// `1`, `true`, `on`, `yes` are `true`, `0`, `false`, `off`, `no` are
/// `false`; any other text is refused.
pub fn bool_of_lowercase(t: String, origin: Option<String>) -> (r: Result<bool, ConfigError>)
    ensures
        if t@ == "1"@ || is_yes_word(t@) {
            r == Ok::<bool, ConfigError>(true)
        } else if t@ == "0"@ || is_no_word(t@) {
            r == Ok::<bool, ConfigError>(false)
        } else {
            is_text_type_error(r, origin, t@, "a boolean"@)
        },
{
    if text_eq(t.as_str(), "1") || yes_word(t.as_str()) {
        Ok(true)
    } else if text_eq(t.as_str(), "0") || no_word(t.as_str()) {
        Ok(false)
    } else {
        Err(ConfigError::invalid_type(origin, Unexpected::Str(t), "a boolean"))
    }
}

/// Reads the lower-cased text `t` of a value from `origin` as an `i64`: the
/// yes words are 1, the no words 0, and any other text must parse as an
/// `i64`.
pub fn i64_of_lowercase(t: String, origin: Option<String>) -> (r: Result<i64, ConfigError>)
    ensures
        if is_yes_word(t@) {
            r == Ok::<i64, ConfigError>(1)
        } else if is_no_word(t@) {
            r == Ok::<i64, ConfigError>(0)
        } else {
            match parsed_in(t@, true, i64::MIN as int, i64::MAX as int) {
                Some(v) => r == Ok::<i64, ConfigError>(v as i64),
                None => is_text_type_error(r, origin, t@, "an signed 64 bit or less integer"@),
            }
        },
{
    if yes_word(t.as_str()) {
        Ok(1)
    } else if no_word(t.as_str()) {
        Ok(0)
    } else {
        match parse_i64(t.as_str()) {
            Some(v) => Ok(v),
            None => Err(ConfigError::invalid_type(origin, Unexpected::Str(t), "an signed 64 bit or less integer")),
        }
    }
}

/// Reads the lower-cased text `t` of a value from `origin` as an `i128`: the
/// yes words are 1, the no words 0, and any other text is refused.
pub fn i128_of_lowercase(t: String, origin: Option<String>) -> (r: Result<i128, ConfigError>)
    ensures
        if is_yes_word(t@) {
            r == Ok::<i128, ConfigError>(1)
        } else if is_no_word(t@) {
            r == Ok::<i128, ConfigError>(0)
        } else {
            is_text_type_error(r, origin, t@, "an signed 128 bit integer"@)
        },
{
    if yes_word(t.as_str()) {
        Ok(1)
    } else if no_word(t.as_str()) {
        Ok(0)
    } else {
        Err(ConfigError::invalid_type(origin, Unexpected::Str(t), "an signed 128 bit integer"))
    }
}

/// Reads the lower-cased text `t` of a value from `origin` as a `u64`: the
/// yes words are 1, the no words 0, and any other text must parse as a `u64`.
pub fn u64_of_lowercase(t: String, origin: Option<String>) -> (r: Result<u64, ConfigError>)
    ensures
        if is_yes_word(t@) {
            r == Ok::<u64, ConfigError>(1)
        } else if is_no_word(t@) {
            r == Ok::<u64, ConfigError>(0)
        } else {
            match parsed_in(t@, false, 0, u64::MAX as int) {
                Some(v) => r == Ok::<u64, ConfigError>(v as u64),
                None => is_text_type_error(r, origin, t@, "an unsigned 64 bit integer"@),
            }
        },
{
    if yes_word(t.as_str()) {
        Ok(1)
    } else if no_word(t.as_str()) {
        Ok(0)
    } else {
        match parse_u64(t.as_str()) {
            Some(v) => Ok(v),
            None => Err(ConfigError::invalid_type(origin, Unexpected::Str(t), "an unsigned 64 bit integer")),
        }
    }
}

/// Reads the lower-cased text `t` of a value from `origin` as a `u128`: the
/// yes words are 1, the no words 0, and any other text must parse as a
/// `u128`.
pub fn u128_of_lowercase(t: String, origin: Option<String>) -> (r: Result<u128, ConfigError>)
    ensures
        if is_yes_word(t@) {
            r == Ok::<u128, ConfigError>(1)
        } else if is_no_word(t@) {
            r == Ok::<u128, ConfigError>(0)
        } else {
            match parsed_in(t@, false, 0, u128::MAX as int) {
                Some(v) => r == Ok::<u128, ConfigError>(v as u128),
                None => is_text_type_error(r, origin, t@, "an unsigned 128 bit integer"@),
            }
        },
{
    if yes_word(t.as_str()) {
        Ok(1)
    } else if no_word(t.as_str()) {
        Ok(0)
    } else {
        match parse_u128(t.as_str()) {
            Some(v) => Ok(v),
            None => Err(ConfigError::invalid_type(origin, Unexpected::Str(t), "an unsigned 128 bit integer")),
        }
    }
}

impl Value {
    /// A value of the given kind from `origin`. (Other plain values become a
    /// kind through `ValueKind::from` first.)
    pub fn new(origin: Option<&String>, kind: ValueKind) -> (r: Value)
        ensures
            r@ == (match origin { Some(o) => Some(*o), None => None::<String> }, kind),
    {
        let origin = match origin {
            Some(o) => Some(o.clone()),
            None => None,
        };
        Value { origin, kind }
    }

    /// The place the value came from and its kind, taken apart.
    pub fn into_parts(self) -> (r: (Option<String>, ValueKind))
        ensures
            r == self@,
    {
        (self.origin, self.kind)
    }

    /// The place the value came from, as text.
    pub fn origin(&self) -> (r: Option<&str>)
        ensures
            match self@.0 {
                Some(o) => r matches Some(t) && t@ == o@,
                None => r is None,
            },
    {
        match &self.origin {
            Some(o) => Some(o.as_str()),
            None => None,
        }
    }

    /// The value as a boolean: numbers are `true` unless zero, and the texts
    /// `1`, `true`, `on`, `yes` and `0`, `false`, `off`, `no` are read in any
    /// letter case.
    pub fn into_bool(self) -> (r: Result<bool, ConfigError>)
        ensures
            match self@.1 {
                ValueKind::Boolean(b) => r == Ok::<bool, ConfigError>(b),
                ValueKind::I64(i) => r == Ok::<bool, ConfigError>(i != 0),
                ValueKind::I128(i) => r == Ok::<bool, ConfigError>(i != 0),
                ValueKind::U64(i) => r == Ok::<bool, ConfigError>(i != 0),
                ValueKind::U128(i) => r == Ok::<bool, ConfigError>(i != 0),
                ValueKind::Float(f) => r == Ok::<bool, ConfigError>(float_bits_nonzero(f)),
                ValueKind::String(s) => {
                    let t = lowercase(s@);
                    if t == "1"@ || is_yes_word(t) {
                        r == Ok::<bool, ConfigError>(true)
                    } else if t == "0"@ || is_no_word(t) {
                        r == Ok::<bool, ConfigError>(false)
                    } else {
                        is_text_type_error(r, self@.0, t, "a boolean"@)
                    }
                },
                kind => is_type_error(r, self@.0, unexpected_of(kind), "a boolean"@),
            },
    {
        let Value { origin, kind } = self;
        match kind {
            ValueKind::Boolean(b) => Ok(b),
            ValueKind::I64(i) => Ok(i != 0),
            ValueKind::I128(i) => Ok(i != 0),
            ValueKind::U64(i) => Ok(i != 0),
            ValueKind::U128(i) => Ok(i != 0),
            ValueKind::Float(f) => Ok(f != 0 && f != 0x8000_0000_0000_0000),
            ValueKind::String(s) => bool_of_lowercase(to_lowercase(s.as_str()), origin),
            ValueKind::Nil => Err(ConfigError::invalid_type(origin, Unexpected::Unit, "a boolean")),
            ValueKind::Table(_) => Err(ConfigError::invalid_type(origin, Unexpected::Mapping, "a boolean")),
            ValueKind::Array(_) => Err(ConfigError::invalid_type(origin, Unexpected::Sequence, "a boolean")),
        }
    }
    /// The value as an `i64`: integers that fit, booleans as 0 and 1, and
    /// texts that are `true`, `on`, `yes`, `false`, `off`, `no` in any letter
    /// case or that parse as an `i64` once in lower case.
    pub fn into_int(self) -> (r: Result<i64, ConfigError>)
        requires
            !(self@.1 is Float),
        ensures
            match self@.1 {
                ValueKind::I64(i) => r == Ok::<i64, ConfigError>(i),
                ValueKind::I128(i) => if i64::MIN <= i <= i64::MAX {
                    r == Ok::<i64, ConfigError>(i as i64)
                } else {
                    is_type_error(r, self@.0, Unexpected::I128(i), "an signed 64 bit or less integer"@)
                },
                ValueKind::U64(i) => if i <= i64::MAX {
                    r == Ok::<i64, ConfigError>(i as i64)
                } else {
                    is_type_error(r, self@.0, Unexpected::U64(i), "an signed 64 bit or less integer"@)
                },
                ValueKind::U128(i) => if i <= i64::MAX {
                    r == Ok::<i64, ConfigError>(i as i64)
                } else {
                    is_type_error(r, self@.0, Unexpected::U128(i), "an signed 64 bit or less integer"@)
                },
                ValueKind::String(s) => {
                    let t = lowercase(s@);
                    if is_yes_word(t) {
                        r == Ok::<i64, ConfigError>(1)
                    } else if is_no_word(t) {
                        r == Ok::<i64, ConfigError>(0)
                    } else {
                        match parsed_in(t, true, i64::MIN as int, i64::MAX as int) {
                            Some(v) => r == Ok::<i64, ConfigError>(v as i64),
                            None => is_text_type_error(r, self@.0, t, "an signed 64 bit or less integer"@),
                        }
                    }
                },
                ValueKind::Boolean(b) => r == Ok::<i64, ConfigError>(if b { 1 } else { 0 }),
                kind => is_type_error(r, self@.0, unexpected_of(kind), "an integer"@),
            },
    {
        let Value { origin, kind } = self;
        match kind {
            ValueKind::I64(i) => Ok(i),
            ValueKind::I128(i) => if i64::MIN as i128 <= i && i <= i64::MAX as i128 {
                Ok(i as i64)
            } else {
                Err(ConfigError::invalid_type(origin, Unexpected::I128(i), "an signed 64 bit or less integer"))
            },
            ValueKind::U64(i) => if i <= i64::MAX as u64 {
                Ok(i as i64)
            } else {
                Err(ConfigError::invalid_type(origin, Unexpected::U64(i), "an signed 64 bit or less integer"))
            },
            ValueKind::U128(i) => if i <= i64::MAX as u128 {
                Ok(i as i64)
            } else {
                Err(ConfigError::invalid_type(origin, Unexpected::U128(i), "an signed 64 bit or less integer"))
            },
            ValueKind::String(s) => i64_of_lowercase(to_lowercase(s.as_str()), origin),
            ValueKind::Boolean(b) => Ok(if b { 1 } else { 0 }),
            ValueKind::Nil => Err(ConfigError::invalid_type(origin, Unexpected::Unit, "an integer")),
            ValueKind::Table(_) => Err(ConfigError::invalid_type(origin, Unexpected::Mapping, "an integer")),
            ValueKind::Array(_) => Err(ConfigError::invalid_type(origin, Unexpected::Sequence, "an integer")),
            ValueKind::Float(_) => unreached(),
        }
    }

    /// The value as an `i128`: integers that fit, booleans as 0 and 1, and
    /// texts that are `true`, `on`, `yes`, `false`, `off`, `no` in any letter
    /// case. Other texts are refused.
    pub fn into_int128(self) -> (r: Result<i128, ConfigError>)
        requires
            !(self@.1 is Float),
        ensures
            match self@.1 {
                ValueKind::I64(i) => r == Ok::<i128, ConfigError>(i as i128),
                ValueKind::I128(i) => r == Ok::<i128, ConfigError>(i),
                ValueKind::U64(i) => r == Ok::<i128, ConfigError>(i as i128),
                ValueKind::U128(i) => if i <= i128::MAX {
                    r == Ok::<i128, ConfigError>(i as i128)
                } else {
                    is_type_error(r, self@.0, Unexpected::U128(i), "an signed 128 bit integer"@)
                },
                ValueKind::String(s) => {
                    let t = lowercase(s@);
                    if is_yes_word(t) {
                        r == Ok::<i128, ConfigError>(1)
                    } else if is_no_word(t) {
                        r == Ok::<i128, ConfigError>(0)
                    } else {
                        is_text_type_error(r, self@.0, t, "an signed 128 bit integer"@)
                    }
                },
                ValueKind::Boolean(b) => r == Ok::<i128, ConfigError>(if b { 1 } else { 0 }),
                kind => is_type_error(r, self@.0, unexpected_of(kind), "an integer"@),
            },
    {
        let Value { origin, kind } = self;
        match kind {
            ValueKind::I64(i) => Ok(i as i128),
            ValueKind::I128(i) => Ok(i),
            ValueKind::U64(i) => Ok(i as i128),
            ValueKind::U128(i) => if i <= i128::MAX as u128 {
                Ok(i as i128)
            } else {
                Err(ConfigError::invalid_type(origin, Unexpected::U128(i), "an signed 128 bit integer"))
            },
            ValueKind::String(s) => i128_of_lowercase(to_lowercase(s.as_str()), origin),
            ValueKind::Boolean(b) => Ok(if b { 1 } else { 0 }),
            ValueKind::Nil => Err(ConfigError::invalid_type(origin, Unexpected::Unit, "an integer")),
            ValueKind::Table(_) => Err(ConfigError::invalid_type(origin, Unexpected::Mapping, "an integer")),
            ValueKind::Array(_) => Err(ConfigError::invalid_type(origin, Unexpected::Sequence, "an integer")),
            ValueKind::Float(_) => unreached(),
        }
    }

    /// The value as a `u64`: integers that fit, booleans as 0 and 1, and
    /// texts that are `true`, `on`, `yes`, `false`, `off`, `no` in any letter
    /// case or that parse as a `u64` once in lower case.
    pub fn into_uint(self) -> (r: Result<u64, ConfigError>)
        requires
            !(self@.1 is Float),
        ensures
            match self@.1 {
                ValueKind::I64(i) => if 0 <= i {
                    r == Ok::<u64, ConfigError>(i as u64)
                } else {
                    is_type_error(r, self@.0, Unexpected::I64(i), "an unsigned 64 bit integer"@)
                },
                ValueKind::I128(i) => if 0 <= i <= u64::MAX {
                    r == Ok::<u64, ConfigError>(i as u64)
                } else {
                    is_type_error(r, self@.0, Unexpected::I128(i), "an unsigned 64 bit integer"@)
                },
                ValueKind::U64(i) => r == Ok::<u64, ConfigError>(i),
                ValueKind::U128(i) => if i <= u64::MAX {
                    r == Ok::<u64, ConfigError>(i as u64)
                } else {
                    is_type_error(r, self@.0, Unexpected::U128(i), "an unsigned 64 bit integer"@)
                },
                ValueKind::Boolean(b) => r == Ok::<u64, ConfigError>(if b { 1 } else { 0 }),
                ValueKind::String(s) => {
                    let t = lowercase(s@);
                    if is_yes_word(t) {
                        r == Ok::<u64, ConfigError>(1)
                    } else if is_no_word(t) {
                        r == Ok::<u64, ConfigError>(0)
                    } else {
                        match parsed_in(t, false, 0, u64::MAX as int) {
                            Some(v) => r == Ok::<u64, ConfigError>(v as u64),
                            None => is_text_type_error(r, self@.0, t, "an unsigned 64 bit integer"@),
                        }
                    }
                },
                kind => is_type_error(r, self@.0, unexpected_of(kind), "an integer"@),
            },
    {
        let Value { origin, kind } = self;
        match kind {
            ValueKind::I64(i) => if 0 <= i {
                Ok(i as u64)
            } else {
                Err(ConfigError::invalid_type(origin, Unexpected::I64(i), "an unsigned 64 bit integer"))
            },
            ValueKind::I128(i) => if 0 <= i && i <= u64::MAX as i128 {
                Ok(i as u64)
            } else {
                Err(ConfigError::invalid_type(origin, Unexpected::I128(i), "an unsigned 64 bit integer"))
            },
            ValueKind::U64(i) => Ok(i),
            ValueKind::U128(i) => if i <= u64::MAX as u128 {
                Ok(i as u64)
            } else {
                Err(ConfigError::invalid_type(origin, Unexpected::U128(i), "an unsigned 64 bit integer"))
            },
            ValueKind::Boolean(b) => Ok(if b { 1 } else { 0 }),
            ValueKind::String(s) => u64_of_lowercase(to_lowercase(s.as_str()), origin),
            ValueKind::Nil => Err(ConfigError::invalid_type(origin, Unexpected::Unit, "an integer")),
            ValueKind::Table(_) => Err(ConfigError::invalid_type(origin, Unexpected::Mapping, "an integer")),
            ValueKind::Array(_) => Err(ConfigError::invalid_type(origin, Unexpected::Sequence, "an integer")),
            ValueKind::Float(_) => unreached(),
        }
    }

    /// The value as a `u128`: integers that fit, booleans as 0 and 1, and
    /// texts that are `true`, `on`, `yes`, `false`, `off`, `no` in any letter
    /// case or that parse as a `u128` once in lower case.
    pub fn into_uint128(self) -> (r: Result<u128, ConfigError>)
        requires
            !(self@.1 is Float),
        ensures
            match self@.1 {
                ValueKind::U64(i) => r == Ok::<u128, ConfigError>(i as u128),
                ValueKind::U128(i) => r == Ok::<u128, ConfigError>(i),
                ValueKind::I64(i) => if 0 <= i {
                    r == Ok::<u128, ConfigError>(i as u128)
                } else {
                    is_type_error(r, self@.0, Unexpected::I64(i), "an unsigned 128 bit integer"@)
                },
                ValueKind::I128(i) => if 0 <= i {
                    r == Ok::<u128, ConfigError>(i as u128)
                } else {
                    is_type_error(r, self@.0, Unexpected::I128(i), "an unsigned 128 bit integer"@)
                },
                ValueKind::String(s) => {
                    let t = lowercase(s@);
                    if is_yes_word(t) {
                        r == Ok::<u128, ConfigError>(1)
                    } else if is_no_word(t) {
                        r == Ok::<u128, ConfigError>(0)
                    } else {
                        match parsed_in(t, false, 0, u128::MAX as int) {
                            Some(v) => r == Ok::<u128, ConfigError>(v as u128),
                            None => is_text_type_error(r, self@.0, t, "an unsigned 128 bit integer"@),
                        }
                    }
                },
                ValueKind::Boolean(b) => r == Ok::<u128, ConfigError>(if b { 1 } else { 0 }),
                kind => is_type_error(r, self@.0, unexpected_of(kind), "an integer"@),
            },
    {
        let Value { origin, kind } = self;
        match kind {
            ValueKind::U64(i) => Ok(i as u128),
            ValueKind::U128(i) => Ok(i),
            ValueKind::I64(i) => if 0 <= i {
                Ok(i as u128)
            } else {
                Err(ConfigError::invalid_type(origin, Unexpected::I64(i), "an unsigned 128 bit integer"))
            },
            ValueKind::I128(i) => if 0 <= i {
                Ok(i as u128)
            } else {
                Err(ConfigError::invalid_type(origin, Unexpected::I128(i), "an unsigned 128 bit integer"))
            },
            ValueKind::String(s) => u128_of_lowercase(to_lowercase(s.as_str()), origin),
            ValueKind::Boolean(b) => Ok(if b { 1 } else { 0 }),
            ValueKind::Nil => Err(ConfigError::invalid_type(origin, Unexpected::Unit, "an integer")),
            ValueKind::Table(_) => Err(ConfigError::invalid_type(origin, Unexpected::Mapping, "an integer")),
            ValueKind::Array(_) => Err(ConfigError::invalid_type(origin, Unexpected::Sequence, "an integer")),
            ValueKind::Float(_) => unreached(),
        }
    }

    /// The value as text: texts as they are, booleans as `true` or `false`,
    /// integers in decimal.
    pub fn into_string(self) -> (r: Result<String, ConfigError>)
        requires
            !(self@.1 is Float),
        ensures
            match self@.1 {
                ValueKind::String(s) => r == Ok::<String, ConfigError>(s),
                ValueKind::Boolean(b) => r matches Ok(t) && t@ == (if b { "true"@ } else { "false"@ }),
                ValueKind::I64(i) => r matches Ok(t) && t@ == decimal_text(i as int),
                ValueKind::I128(i) => r matches Ok(t) && t@ == decimal_text(i as int),
                ValueKind::U64(i) => r matches Ok(t) && t@ == decimal_text(i as int),
                ValueKind::U128(i) => r matches Ok(t) && t@ == decimal_text(i as int),
                kind => is_type_error(r, self@.0, unexpected_of(kind), "s string"@),
            },
    {
        let Value { origin, kind } = self;
        match kind {
            ValueKind::String(s) => Ok(s),
            ValueKind::Boolean(b) => Ok(String::from_str(if b { "true" } else { "false" })),
            ValueKind::I64(i) => Ok(i128_text(i as i128)),
            ValueKind::I128(i) => Ok(i128_text(i)),
            ValueKind::U64(i) => Ok(u128_text(i as u128)),
            ValueKind::U128(i) => Ok(u128_text(i)),
            ValueKind::Nil => Err(ConfigError::invalid_type(origin, Unexpected::Unit, "s string")),
            ValueKind::Table(_) => Err(ConfigError::invalid_type(origin, Unexpected::Mapping, "s string")),
            ValueKind::Array(_) => Err(ConfigError::invalid_type(origin, Unexpected::Sequence, "s string")),
            ValueKind::Float(_) => unreached(),
        }
    }

    /// The items of an array value; any other value is refused.
    pub fn into_array(self) -> (r: Result<Array, ConfigError>)
        ensures
            match self@.1 {
                ValueKind::Array(a) => r == Ok::<Array, ConfigError>(a),
                ValueKind::Table(_) => is_type_error(r, self@.0, Unexpected::Sequence, "a array"@),
                ValueKind::String(s) => is_text_type_error(r, self@.0, s@, "a array"@),
                kind => is_type_error(r, self@.0, unexpected_of(kind), "a array"@),
            },
    {
        let Value { origin, kind } = self;
        match kind {
            ValueKind::Array(a) => Ok(a),
            ValueKind::Table(_) => Err(ConfigError::invalid_type(origin, Unexpected::Sequence, "a array")),
            ValueKind::Nil => Err(ConfigError::invalid_type(origin, Unexpected::Unit, "a array")),
            ValueKind::Float(f) => Err(ConfigError::invalid_type(origin, Unexpected::Float(f), "a array")),
            ValueKind::String(s) => Err(ConfigError::invalid_type(origin, Unexpected::Str(s), "a array")),
            ValueKind::Boolean(b) => Err(ConfigError::invalid_type(origin, Unexpected::Bool(b), "a array")),
            ValueKind::I64(i) => Err(ConfigError::invalid_type(origin, Unexpected::I64(i), "a array")),
            ValueKind::I128(i) => Err(ConfigError::invalid_type(origin, Unexpected::I128(i), "a array")),
            ValueKind::U64(u) => Err(ConfigError::invalid_type(origin, Unexpected::U64(u), "a array")),
            ValueKind::U128(u) => Err(ConfigError::invalid_type(origin, Unexpected::U128(u), "a array")),
        }
    }

    /// The entries of a table value; any other value is refused.
    pub fn into_table(self) -> (r: Result<Table, ConfigError>)
        ensures
            match self@.1 {
                ValueKind::Table(t) => r == Ok::<Table, ConfigError>(t),
                ValueKind::String(s) => is_text_type_error(r, self@.0, s@, "a table"@),
                kind => is_type_error(r, self@.0, unexpected_of(kind), "a table"@),
            },
    {
        let Value { origin, kind } = self;
        match kind {
            ValueKind::Table(t) => Ok(t),
            ValueKind::Nil => Err(ConfigError::invalid_type(origin, Unexpected::Unit, "a table")),
            ValueKind::String(s) => Err(ConfigError::invalid_type(origin, Unexpected::Str(s), "a table")),
            ValueKind::Boolean(b) => Err(ConfigError::invalid_type(origin, Unexpected::Bool(b), "a table")),
            ValueKind::Float(f) => Err(ConfigError::invalid_type(origin, Unexpected::Float(f), "a table")),
            ValueKind::I64(i) => Err(ConfigError::invalid_type(origin, Unexpected::I64(i), "a table")),
            ValueKind::I128(i) => Err(ConfigError::invalid_type(origin, Unexpected::I128(i), "a table")),
            ValueKind::U64(u) => Err(ConfigError::invalid_type(origin, Unexpected::U64(u), "a table")),
            ValueKind::U128(u) => Err(ConfigError::invalid_type(origin, Unexpected::U128(u), "a table")),
            ValueKind::Array(_) => Err(ConfigError::invalid_type(origin, Unexpected::Sequence, "a table")),
        }
    }
}

/// The kind holds no float, at any depth.
pub closed spec fn kind_has_no_float(k: ValueKind) -> bool
    decreases k,
{
    match k {
        ValueKind::Float(_) => false,
        ValueKind::Array(a) => forall|i: int| 0 <= i < a@.len() ==> kind_has_no_float(#[trigger] a@[i].kind),
        ValueKind::Table(t) => forall|i: int| 0 <= i < t@.len() ==> kind_has_no_float(#[trigger] t@[i].1.kind),
        _ => true,
    }
}

/// The text `Display` writes for a kind: `nil`, booleans and integers as
/// usual, texts as they are, an array as `[` and its items' texts, run
/// together, and `]`, a table as `{ ` and `key => value` for each entry, run
/// together, and ` }`.
pub closed spec fn kind_text(k: ValueKind) -> Seq<char>
    decreases k, 0nat,
{
    match k {
        ValueKind::Nil => "nil"@,
        ValueKind::Boolean(b) => if b { "true"@ } else { "false"@ },
        ValueKind::I64(i) => decimal_text(i as int),
        ValueKind::I128(i) => decimal_text(i as int),
        ValueKind::U64(i) => decimal_text(i as int),
        ValueKind::U128(i) => decimal_text(i as int),
        ValueKind::Float(_) => seq![],
        ValueKind::String(s) => s@,
        ValueKind::Array(a) => "["@ + items_text(a@, a@.len()) + "]"@,
        ValueKind::Table(t) => "{ "@ + entries_text(t@, t@.len()) + " }"@,
    }
}

/// The texts of the first `n` items, run together.
pub closed spec fn items_text(a: Seq<Value>, n: nat) -> Seq<char>
    decreases a, n,
{
    if n == 0 || n > a.len() {
        seq![]
    } else {
        items_text(a, (n - 1) as nat) + kind_text(a[n - 1].kind)
    }
}

/// The texts `key => value` of the first `n` entries, run together.
pub closed spec fn entries_text(t: Seq<(String, Value)>, n: nat) -> Seq<char>
    decreases t, n,
{
    if n == 0 || n > t.len() {
        seq![]
    } else {
        entries_text(t, (n - 1) as nat) + t[n - 1].0@ + " => "@ + kind_text(t[n - 1].1.kind)
    }
}

/// The decimal digits of a number start with a digit.
proof fn lemma_digits_start_with_digit(n: nat)
    ensures
        decimal_digits(n).len() >= 1,
        '0' <= decimal_digits(n)[0] <= '9',
    decreases n,
{
    if n >= 10 {
        lemma_digits_start_with_digit(n / 10);
    }
}

/// An integer has the same text in every integer kind that can hold it, and
/// that text is the one `into_string` gives it: its decimal digits, after a
/// minus sign exactly when it is negative.
pub proof fn lemma_integer_kind_text(i: i64, j: i128, u: u64)
    ensures
        kind_text(ValueKind::I64(i)) == decimal_text(i as int),
        kind_text(ValueKind::I128(j)) == decimal_text(j as int),
        kind_text(ValueKind::U64(u)) == decimal_text(u as int),
        kind_text(ValueKind::I64(i)) == kind_text(ValueKind::I128(i as i128)),
        i >= 0 ==> kind_text(ValueKind::I64(i)) == kind_text(ValueKind::U64(i as u64)),
        j >= 0 ==> kind_text(ValueKind::I128(j)) == kind_text(ValueKind::U128(j as u128)),
        kind_text(ValueKind::I64(i)).len() >= 1,
        (kind_text(ValueKind::I64(i))[0] == '-') <==> i < 0,
        (kind_text(ValueKind::I128(j))[0] == '-') <==> j < 0,
{
    if i < 0 {
        lemma_digits_start_with_digit((-i) as nat);
    } else {
        lemma_digits_start_with_digit(i as nat);
    }
    if j < 0 {
        lemma_digits_start_with_digit((-j) as nat);
    } else {
        lemma_digits_start_with_digit(j as nat);
    }
}

impl ValueKind {
    /// The text of the kind, as its `Display` writes it; floats have no text
    /// here.
    pub fn to_text(&self) -> (r: String)
        requires
            kind_has_no_float(*self),
        ensures
            r@ == kind_text(*self),
        decreases *self,
    {
        match self {
            ValueKind::Nil => String::from_str("nil"),
            ValueKind::Boolean(b) => String::from_str(if *b { "true" } else { "false" }),
            ValueKind::I64(i) => i128_text(*i as i128),
            ValueKind::I128(i) => i128_text(*i),
            ValueKind::U64(i) => u128_text(*i as u128),
            ValueKind::U128(i) => u128_text(*i),
            ValueKind::Float(_) => String::new(),
            ValueKind::String(s) => s.clone(),
            ValueKind::Array(a) => {
                let mut s = String::from_str("[");
                let mut i: usize = 0;
                while i < a.len()
                    invariant
                        i <= a@.len(),
                        *self == ValueKind::Array(*a),
                        kind_has_no_float(*self),
                        s@ == "["@ + items_text(a@, i as nat),
                    decreases a@.len() - i,
                {
                    assert(kind_has_no_float(a@[i as int].kind));
                    proof {
                        assert(decreases_to!(*self => a@[i as int].kind));
                    }
                    let t = a[i].kind.to_text();
                    s.append(t.as_str());
                    i += 1;
                }
                s.append("]");
                s
            },
            ValueKind::Table(tb) => {
                let mut s = String::from_str("{ ");
                let mut i: usize = 0;
                while i < tb.len()
                    invariant
                        i <= tb@.len(),
                        *self == ValueKind::Table(*tb),
                        kind_has_no_float(*self),
                        s@ == "{ "@ + entries_text(tb@, i as nat),
                    decreases tb@.len() - i,
                {
                    assert(kind_has_no_float(tb@[i as int].1.kind));
                    proof {
                        assert(decreases_to!(*self => tb@[i as int].1.kind));
                    }
                    s.append(tb[i].0.as_str());
                    s.append(" => ");
                    let t = tb[i].1.kind.to_text();
                    s.append(t.as_str());
                    i += 1;
                }
                s.append(" }");
                s
            },
        }
    }
}

impl Value {
    /// The text of the value, that of its kind.
    pub fn to_text(&self) -> (r: String)
        requires
            kind_has_no_float(self@.1),
        ensures
            r@ == kind_text(self@.1),
    {
        self.kind.to_text()
    }
}

impl From<i8> for ValueKind {
    fn from(v: i8) -> (r: Self) {
        Self::I64(v as i64)
    }
}

impl vstd::std_specs::convert::FromSpecImpl<i8> for ValueKind {
    open spec fn obeys_from_spec() -> bool {
        true
    }

    open spec fn from_spec(v: i8) -> Self {
        Self::I64(v as i64)
    }
}

impl From<i16> for ValueKind {
    fn from(v: i16) -> (r: Self) {
        Self::I64(v as i64)
    }
}

impl vstd::std_specs::convert::FromSpecImpl<i16> for ValueKind {
    open spec fn obeys_from_spec() -> bool {
        true
    }

    open spec fn from_spec(v: i16) -> Self {
        Self::I64(v as i64)
    }
}

impl From<i32> for ValueKind {
    fn from(v: i32) -> (r: Self) {
        Self::I64(v as i64)
    }
}

impl vstd::std_specs::convert::FromSpecImpl<i32> for ValueKind {
    open spec fn obeys_from_spec() -> bool {
        true
    }

    open spec fn from_spec(v: i32) -> Self {
        Self::I64(v as i64)
    }
}

impl From<i64> for ValueKind {
    fn from(v: i64) -> (r: Self) {
        Self::I64(v)
    }
}

impl vstd::std_specs::convert::FromSpecImpl<i64> for ValueKind {
    open spec fn obeys_from_spec() -> bool {
        true
    }

    open spec fn from_spec(v: i64) -> Self {
        Self::I64(v)
    }
}

impl From<i128> for ValueKind {
    fn from(v: i128) -> (r: Self) {
        Self::I128(v)
    }
}

impl vstd::std_specs::convert::FromSpecImpl<i128> for ValueKind {
    open spec fn obeys_from_spec() -> bool {
        true
    }

    open spec fn from_spec(v: i128) -> Self {
        Self::I128(v)
    }
}

impl From<u8> for ValueKind {
    fn from(v: u8) -> (r: Self) {
        Self::U64(v as u64)
    }
}

impl vstd::std_specs::convert::FromSpecImpl<u8> for ValueKind {
    open spec fn obeys_from_spec() -> bool {
        true
    }

    open spec fn from_spec(v: u8) -> Self {
        Self::U64(v as u64)
    }
}

impl From<u16> for ValueKind {
    fn from(v: u16) -> (r: Self) {
        Self::U64(v as u64)
    }
}

impl vstd::std_specs::convert::FromSpecImpl<u16> for ValueKind {
    open spec fn obeys_from_spec() -> bool {
        true
    }

    open spec fn from_spec(v: u16) -> Self {
        Self::U64(v as u64)
    }
}

impl From<u32> for ValueKind {
    fn from(v: u32) -> (r: Self) {
        Self::U64(v as u64)
    }
}

impl vstd::std_specs::convert::FromSpecImpl<u32> for ValueKind {
    open spec fn obeys_from_spec() -> bool {
        true
    }

    open spec fn from_spec(v: u32) -> Self {
        Self::U64(v as u64)
    }
}

impl From<u64> for ValueKind {
    fn from(v: u64) -> (r: Self) {
        Self::U64(v)
    }
}

impl vstd::std_specs::convert::FromSpecImpl<u64> for ValueKind {
    open spec fn obeys_from_spec() -> bool {
        true
    }

    open spec fn from_spec(v: u64) -> Self {
        Self::U64(v)
    }
}

impl From<u128> for ValueKind {
    fn from(v: u128) -> (r: Self) {
        Self::U128(v)
    }
}

impl vstd::std_specs::convert::FromSpecImpl<u128> for ValueKind {
    open spec fn obeys_from_spec() -> bool {
        true
    }

    open spec fn from_spec(v: u128) -> Self {
        Self::U128(v)
    }
}

impl From<bool> for ValueKind {
    fn from(v: bool) -> (r: Self) {
        Self::Boolean(v)
    }
}

impl vstd::std_specs::convert::FromSpecImpl<bool> for ValueKind {
    open spec fn obeys_from_spec() -> bool {
        true
    }

    open spec fn from_spec(v: bool) -> Self {
        Self::Boolean(v)
    }
}

impl From<String> for ValueKind {
    fn from(v: String) -> (r: Self) {
        Self::String(v)
    }
}

impl vstd::std_specs::convert::FromSpecImpl<String> for ValueKind {
    open spec fn obeys_from_spec() -> bool {
        true
    }

    open spec fn from_spec(v: String) -> Self {
        Self::String(v)
    }
}

impl From<Array> for ValueKind {
    fn from(v: Array) -> (r: Self) {
        Self::Array(v)
    }
}

impl vstd::std_specs::convert::FromSpecImpl<Array> for ValueKind {
    open spec fn obeys_from_spec() -> bool {
        true
    }

    open spec fn from_spec(v: Array) -> Self {
        Self::Array(v)
    }
}

impl From<Table> for ValueKind {
    fn from(v: Table) -> (r: Self) {
        Self::Table(v)
    }
}

impl vstd::std_specs::convert::FromSpecImpl<Table> for ValueKind {
    open spec fn obeys_from_spec() -> bool {
        true
    }

    open spec fn from_spec(v: Table) -> Self {
        Self::Table(v)
    }
}

/// A text kind holding a copy of the text. A specification cannot name the
/// `String` made from a `&str`, so the trait's specification claims nothing;
/// this impl's own `ensures` says what the kind holds.
impl<'a> From<&'a str> for ValueKind {
    fn from(v: &'a str) -> (r: Self)
        ensures
            r matches ValueKind::String(t) && t@ == v@,
    {
        Self::String(String::from_str(v))
    }
}

impl<'a> vstd::std_specs::convert::FromSpecImpl<&'a str> for ValueKind {
    open spec fn obeys_from_spec() -> bool {
        false
    }

    open spec fn from_spec(v: &'a str) -> Self {
        Self::Nil
    }
}

/// The kind of the held value, or nil where there is none.
impl<T> From<Option<T>> for ValueKind where T: Into<ValueKind> {
    fn from(v: Option<T>) -> (r: Self) {
        match v {
            Some(value) => value.into(),
            None => Self::Nil,
        }
    }
}

impl<T> vstd::std_specs::convert::FromSpecImpl<Option<T>> for ValueKind where T: Into<ValueKind> {
    open spec fn obeys_from_spec() -> bool {
        <T as vstd::std_specs::convert::IntoSpec<ValueKind>>::obeys_into_spec()
    }

    open spec fn from_spec(v: Option<T>) -> Self {
        match v {
            Some(value) => vstd::std_specs::convert::IntoSpec::<ValueKind>::into_spec(value),
            None => Self::Nil,
        }
    }
}

/// A value with no origin, of the kind that `value` converts to.
impl<T> From<T> for Value where T: Into<ValueKind> {
    fn from(value: T) -> (r: Self)
        ensures
            r@.0 is None,
            <T as vstd::std_specs::convert::IntoSpec<ValueKind>>::obeys_into_spec() ==> r@.1 == vstd::std_specs::convert::IntoSpec::<ValueKind>::into_spec(value),
    {
        Self { origin: None, kind: value.into() }
    }
}

impl<T> vstd::std_specs::convert::FromSpecImpl<T> for Value where T: Into<ValueKind> {
    open spec fn obeys_from_spec() -> bool {
        <T as vstd::std_specs::convert::IntoSpec<ValueKind>>::obeys_into_spec()
    }

    closed spec fn from_spec(value: T) -> Self {
        Self { origin: None, kind: vstd::std_specs::convert::IntoSpec::<ValueKind>::into_spec(value) }
    }
}

/// The nil kind.
impl Default for ValueKind {
    fn default() -> (r: Self)
        ensures
            r == ValueKind::Nil,
    {
        ValueKind::Nil
    }
}

/// A nil value with no origin.
impl Default for Value {
    fn default() -> (r: Self)
        ensures
            r@ == (None::<String>, ValueKind::Nil),
    {
        Value { origin: None, kind: ValueKind::Nil }
    }
}

} // verus!
