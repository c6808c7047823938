pub mod base;
pub mod closure;
pub mod convert;
pub mod enums;
pub mod file_search;
pub mod hashmaps;
pub mod iterator;
pub mod vecs;
