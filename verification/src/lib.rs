//! The core of a medicine tracker: records of medicines, their daily dosing
//! schedule and the doses taken, the rules by which a namespaced key-value
//! store holds them, and the daily view that joins schedules with medicines.
//!
//! The library decides and the caller acts. A repository never touches the
//! store: each of its operations is a function that is given the store's last
//! reply and returns the next step, which is a command for the store or the
//! operation's result ([`store::Step`]). The caller carries out the command
//! and calls again with the reply. What the operations come to when the store
//! keeps its word is proved in [`laws`].
//!
//! Doses, amounts and stock are numbers of a type `N` that the caller chooses.
//! The library carries them along and, for stock, adds them.

pub mod aggregation;
pub mod config;
pub mod decimal;
pub mod ideal;
pub mod ident;
pub mod laws;
pub mod models;
pub mod order;
pub mod repositories;
pub mod store;
pub mod text;
