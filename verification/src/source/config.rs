pub mod error;
pub mod value;
