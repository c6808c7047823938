//! Errors of configuration value conversions.
use vstd::prelude::*;

verus! {

/// What was found where another kind of value was wanted. A `Float` is given
/// by the bit pattern of its `f64`.
#[derive(Debug, Clone)]
pub enum Unexpected {
    Bool(bool),
    I64(i64),
    I128(i128),
    U64(u64),
    U128(u128),
    Float(u64),
    Str(String),
    Unit,
    Sequence,
    Mapping,
}

/// An error of a configuration value conversion.
#[derive(Debug, Clone)]
pub enum ConfigError {
    /// A value had another type than the one wanted.
    Type {
        origin: Option<String>,
        unexpected: Unexpected,
        expected: &'static str,
    },
}

impl ConfigError {
    /// The error for a value from `origin` that was `unexpected` where
    /// `expected` was wanted.
    pub fn invalid_type(origin: Option<String>, unexpected: Unexpected, expected: &'static str) -> (r: ConfigError)
        ensures
            r == (ConfigError::Type { origin, unexpected, expected }),
    {
        ConfigError::Type { origin, unexpected, expected }
    }
}

/// `r` is the type error for a value from `origin`, found to be `unexpected`,
/// where `expected` was wanted.
pub open spec fn is_type_error<T>(r: Result<T, ConfigError>, origin: Option<String>, unexpected: Unexpected, expected: Seq<char>) -> bool {
    match r {
        Err(ConfigError::Type { origin: o, unexpected: u, expected: e }) => o == origin && u == unexpected && e@ == expected,
        Ok(_) => false,
    }
}

/// `r` is the type error for a value from `origin`, found to be the text
/// `text`, where `expected` was wanted.
pub open spec fn is_text_type_error<T>(r: Result<T, ConfigError>, origin: Option<String>, text: Seq<char>, expected: Seq<char>) -> bool {
    match r {
        Err(ConfigError::Type { origin: o, unexpected: Unexpected::Str(t), expected: e }) => o == origin && t@ == text && e@ == expected,
        _ => false,
    }
}

} // verus!
