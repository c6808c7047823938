pub mod svec;
