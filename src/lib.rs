//! An in-memory store of questions and answers.
//!
//! Questions are kept unique by identifier and listed in ascending order of
//! identifier; a page of that listing is chosen by an inclusive `start`/`end`
//! window, both given or neither. An answer is accepted only for a question
//! that exists at that moment; deleting a question keeps its answers.
pub mod answers;
pub mod backend;
pub mod error;
pub mod ids;
pub mod laws;
pub mod listing;
pub mod pagination;
pub mod store;
pub mod types;
