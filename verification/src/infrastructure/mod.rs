pub mod ipc;
pub mod login_item;
pub mod update_checker;
