//! A verified core for an authenticated, line-oriented todo shell.
//!
//! The library holds the three pieces with real invariants: the quote-aware
//! tokenizer, the command grammar, and the ownership-scoped access layer over
//! the todo store. Console I/O and the database connection live outside.

pub mod command;
pub mod session;
pub mod store;
pub mod text;
pub mod tokenizer;

use vstd::prelude::*;

verus! {

/// The distinguished superuser id: the only principal allowed to create users.
pub const SUPERUSER_ID: i32 = 1;

} // verus!
