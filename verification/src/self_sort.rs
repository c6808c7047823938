pub mod quick;
