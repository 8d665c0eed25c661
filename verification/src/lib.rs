//! tally: a shared ledger of todos, scratchpads and comments.
pub mod cli;
pub mod clock;
pub mod commands;
pub mod comments;
pub mod errors;
pub mod ids;
pub mod laws;
pub mod markdown;
pub mod mcp;
pub mod nav;
pub mod num;
pub mod order;
pub mod panes;
pub mod plans;
pub mod project;
pub mod scratchpads;
pub mod sync;
pub mod text;
pub mod todos;
pub mod tui;
