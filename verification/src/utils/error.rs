pub mod app;
pub mod base;
pub mod user;
