//! Loader for the visual-novel configuration documents: characters,
//! backgrounds, fonts and positioned text overlays, each read from one
//! YAML document and exposed together as a single immutable snapshot.
use vstd::prelude::*;

pub mod loader;
pub mod model;
pub mod schema;
pub mod table;
pub mod yaml;

pub use loader::{load, parse_backgrounds, parse_characters, parse_fonts, parse_text_configs};
pub use model::{AppConfig, Background, BackgroundVariant, CharacterMeta, Font, TextConfigItem};
pub use table::Table;

verus! {

/// Why a load attempt failed.
#[derive(Debug, Clone, PartialEq)]
pub enum LoadError {
    /// A configuration file could not be read; holds the underlying cause.
    IoError(String),
    /// A configuration file does not match the expected schema; holds the cause.
    ParseError(String),
    /// The host environment could not supply a base directory.
    ResourceDirectoryUnresolved,
}

} // verus!
