//! Core of a personal-budgeting application: recurring cost and income line
//! items, normalization of amounts onto a common monthly basis, a quick-add
//! parser for free-form one-line item entry, and the event reducer that
//! maintains the in-memory store of records.

pub mod items;
pub mod normalize;
pub mod parser;
pub mod quick_add;
pub mod store;
pub mod table;
pub mod text;
