//! Configuration resolution for a terminal editor: structured values parsed
//! from TOML sources, a depth-limited precedence merge, source discovery by
//! directory ancestry, and strict decoding into typed configuration.

use vstd::prelude::*;

pub mod app;
pub mod args;
pub mod config;
pub mod health;
pub mod laws;
pub mod loader;
pub mod locate;
pub mod merge;
pub mod metadata;
pub mod text;
pub mod tomldecl;
pub mod value;

pub use crate::app::App;
pub use crate::args::Args;
pub use crate::args::Cli;
pub use crate::args::Verbosity;
pub use crate::config::editor::EditorConfig;
pub use crate::config::language::LanguageConfig;
pub use crate::config::syntax::SyntaxConfig;
pub use crate::config::Config;
pub use crate::health::Health;
pub use crate::health::HealthCategory;
pub use crate::metadata::Metadata;

verus! {

/// Editing mode of the application.
#[derive(Debug, Default, Clone, Copy, PartialEq, Eq, Hash)]
pub enum Mode {
    #[default]
    Normal,
    Insert,
    Visual,
}

/// A key binding. Not populated yet.
#[derive(Debug, Default, Clone, Copy)]
pub struct KeyBinding {}

} // verus!
