//! A collection of small programs, verified: a quick sort, a growable
//! vector, a linked list, password rules, a weather station,
//! configuration values, a study plan, and the building blocks of a web
//! service, with the language demonstrations that compute something.
pub mod link_list;
pub mod model;
pub mod practice;
pub mod self_sort;
pub mod self_vec;
pub mod service;
pub mod sj;
pub mod source;
pub mod text;
pub mod utils;
pub mod xy;
