//! Project catalog, implementation detection, progress ledger, scaffolding
//! and code search for a numbered curriculum of small programs.

pub mod text;
pub mod catalog;
pub mod detect;
pub mod ledger;
pub mod search;
pub mod scaffold;
pub mod workspace;
pub mod dashboard;
