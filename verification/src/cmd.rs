pub mod add;
pub mod delete;
pub mod search;
pub mod session;
pub mod update;
