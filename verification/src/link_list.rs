pub mod single;
