//! Arguments of the `zone` subcommand.

use vstd::prelude::*;

verus! {

/// Interact with zones.
pub struct Args {
    pub action: Action,
}

pub enum Action {
    List(List),
    Get(Get),
    Create(Create),
    Update(Update),
    Delete(Delete),
    Import(Import),
    Export(Export),
    Validate(Validate),
}

/// List all zones in the account.
pub struct List {}

/// Get information about a zone.
pub struct Get {
    /// The ID of the zone to get.
    pub id: String,
}

/// Create a new zone.
pub struct Create {
    /// Set the name.
    pub name: String,
    /// Set the Time-To-Live.
    pub ttl: Option<usize>,
}

/// Update a zone.
pub struct Update {
    /// The ID of the zone to update.
    pub id: String,
    /// Set the name.
    pub name: Option<String>,
    /// Set the Time-To-Live.
    pub ttl: Option<usize>,
}

/// Delete a zone.
pub struct Delete {
    /// The ID of the zone to delete.
    pub id: String,
    /// Don't prompt for confirmation.
    pub yes_really_delete: bool,
}

/// Import a zone file into a zone.
pub struct Import {
    /// The ID of the zone to import into.
    pub id: String,
    /// The zone file to import.
    pub file: String,
}

/// Export a zone's configuration as a zone file.
pub struct Export {
    /// The ID of the zone to export.
    pub id: String,
    /// The path at which to create the exported zone file.
    pub file: String,
}

/// Validate a zone file for a zone without importing it.
pub struct Validate {
    /// The ID of the zone to validate for.
    pub id: String,
    /// The zone file to validate.
    pub file: String,
}

} // verus!
