pub mod plan;
