//! The command-line argument schema of the tool: top-level switches and
//! the `zone` / `record` subcommand trees. These are plain data types;
//! the binary front end mirrors them with its own derive-carrying copies.

pub mod record;
pub mod zone;

use vstd::prelude::*;

verus! {

/// A command-line client for a DNS hosting API.
pub struct Args {
    /// Show the current version.
    pub version: bool,
    pub action: Option<Actions>,
}

pub enum Actions {
    Zone(zone::Args),
    Record(record::Args),
}

} // verus!
