use vstd::prelude::*;

pub mod text;
pub mod list;
pub mod json;
pub mod clock;
pub mod ident;
pub mod event;
pub mod input;
pub mod output;
pub mod config;
pub mod plugin;
pub mod watcher;
pub mod cli;

verus! {
}
