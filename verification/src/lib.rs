//! An fzf command telescope for herdr: the merged list of herdr's native
//! actions, installed plugin actions, live workspaces and a file finder, and
//! what choosing a row of it does.

pub mod config;
pub mod context;
pub mod files;
pub mod json;
pub mod keys;
pub mod native;
pub mod palette;
pub mod search;
pub mod text;
pub mod tty;
