//! Generates color theme files for terminals, editors and other tools from a
//! theme directory.
//!
//! This crate holds the theme model and its rules: hex colors, ids, color
//! expressions and how their references resolve in stages, flattening of
//! `[colors]`, the checks and output names of the generator, and the
//! palette-route tools. Reading files, applying the floating-point color
//! functions and rendering templates are left to the program around it.
//!
//! # Modules
//!
//! - [`expr`]: color expressions, the reference tables and resolution
//! - [`ansi`]: the 16 terminal slots and their lookup tables
//! - [`theme`]: ids, metadata, role structs, `[colors]` flattening
//! - [`palette`]: the Night/Dawn palette pair
//! - [`generator`]: tool routes, adapter keys, output names
//! - [`tools`], [`terminal`]: palette-route tools
//! - [`names`]: `replace`, suffix stripping, capitalizing
use vstd::prelude::*;

mod text;
mod error;
mod color;
mod float_text;
pub mod expr;
mod table;
pub mod resolve;
pub mod ansi;
pub mod theme;
pub mod names;
pub mod palette;
pub mod generator;
pub mod tools;
pub mod terminal;

pub use error::{error_message, Error, ErrorView};
pub use color::{
    array_text, hex_text, law_hash_is_optional, law_hex_text_parses_back, law_hex_text_shape,
    law_parse_ignores_case, law_parsed_hex_prints_upper, parse_rgb_spec, upper_hex, Rgb,
};
pub use float_text::float_text_ok;
pub use table::{law_table_reads_back_writes, lookup, Table};
pub use palette::{Palette, Palettes, Variant, VARIANTS};

verus! {

/// Content of an artifact.
#[derive(Debug, Clone)]
pub enum ArtifactContent {
    /// Text content to be written.
    Text(String),
    /// Raw bytes to be written.
    Bytes(Vec<u8>),
}

/// A generated file.
#[derive(Debug, Clone)]
pub struct Artifact {
    /// Relative path from the output root (e.g. `helix/akari-night.toml`).
    pub rel_path: String,
    /// Content to be written.
    pub content: ArtifactContent,
    /// Whether the artifact is written with the executable bit.
    pub executable: bool,
}

/// The Unix permission bits a written artifact gets: `rwxr-xr-x` when it is
/// executable, else `rw-r--r--`. Set explicitly, since writing a file keeps
/// an existing file's mode.
pub fn file_mode(executable: bool) -> (m: u32)
    ensures
        m == if executable { 0o755u32 } else { 0o644u32 },
{
    if executable {
        0o755
    } else {
        0o644
    }
}

impl Artifact {
    /// A text file, not executable.
    pub fn text(rel_path: String, content: String) -> (a: Artifact)
        ensures
            a.rel_path == rel_path,
            a.content == ArtifactContent::Text(content),
            !a.executable,
    {
        Artifact { rel_path, content: ArtifactContent::Text(content), executable: false }
    }

    /// A rendered text file with the given executable bit.
    pub fn rendered(rel_path: String, content: String, executable: bool) -> (a: Artifact)
        ensures
            a.rel_path == rel_path,
            a.content == ArtifactContent::Text(content),
            a.executable == executable,
    {
        let a = Artifact::text(rel_path, content);
        Artifact { executable, ..a }
    }

    /// A file of raw bytes.
    pub fn bytes(rel_path: String, contents: Vec<u8>, executable: bool) -> (a: Artifact)
        ensures
            a.rel_path == rel_path,
            a.content == ArtifactContent::Bytes(contents),
            a.executable == executable,
    {
        Artifact { rel_path, content: ArtifactContent::Bytes(contents), executable }
    }
}

} // verus!
