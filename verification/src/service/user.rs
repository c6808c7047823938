pub mod user_info;
