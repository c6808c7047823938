pub mod pass;
pub mod simple_weather;
