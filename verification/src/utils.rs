pub mod error;
pub mod response;
