//! What holds of the repositories when the store keeps its word.
//!
//! Each law follows an operation step by step through an ideal store
//! ([`crate::ideal`]): the operation's commands are answered as that store
//! answers them, and the law says what the operation then comes to.

pub mod daily;
pub mod repository;
