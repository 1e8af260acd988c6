pub mod actions;
pub mod commands;
pub mod users;
