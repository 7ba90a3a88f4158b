pub mod program1;
pub mod program2;
pub mod user;
