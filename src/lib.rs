pub mod command;
pub mod text;
pub mod list;
pub mod persist;
pub mod ip;
pub mod session;
