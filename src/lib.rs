//! Safe extraction and creation of tar.gz and zip archives, and the small
//! pieces of launcher logic built around them.
//!
//! Paths are modelled as sequences of segments (`Vec<String>`). Reading
//! containers, touching the filesystem and canonicalizing paths happen in the
//! caller; this crate decides what may be written where:
//!
//! - `entry_path`: raw entry paths to safe relative segments;
//! - `top_dir`, `archive`: the shared top directory and output paths;
//! - `resolve`: lexical normalization and the walk to the longest existing prefix;
//! - `session`: one extraction as a state machine (sizes, hard links, symlinks);
//! - `pack`: entry names when creating archives;
//! - `laws`: properties of extraction proved for every input.
use vstd::prelude::*;

pub mod archive;
pub mod backup;
pub mod component;
pub mod entry_path;
pub mod error;
pub mod github;
pub mod laws;
pub mod layout;
pub mod pack;
pub mod process;
pub mod resolve;
pub mod runtime;
pub mod session;
pub mod text;
pub mod top_dir;
pub mod validation;
pub mod version;

verus! {

} // verus!
