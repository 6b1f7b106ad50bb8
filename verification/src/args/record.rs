//! Arguments of the `record` subcommand, and the record-type names it
//! accepts on the command line.

use vstd::prelude::*;

verus! {

use crate::ascii::{LC_A, LC_C, LC_E, LC_M, LC_N, LC_R, LC_S, LC_T, LC_V, LC_X, UC_A, UC_C, UC_E, UC_M, UC_N, UC_R, UC_S, UC_T, UC_V, UC_X};

use vstd::string::StringSliceAdditionalSpecFns;

/// The record types the command line accepts, each written either all
/// upper-case or all lower-case.
#[derive(Clone, Copy, PartialEq, Eq, Structural, Debug)]
pub enum RecordType {
    A,
    AAAA,
    CAA,
    CNAME,
    MX,
    NS,
    SRV,
    TXT,
}

/// The record type a byte string denotes, if any: the exact upper-case
/// or exact lower-case spelling of a supported type.
pub open spec fn cli_type_of(s: Seq<u8>) -> Option<RecordType> {
    if s.len() == 1 && (s[0] == UC_A || s[0] == LC_A) {
        Some(RecordType::A)
    } else if s.len() == 4 && ((s[0] == UC_A && s[1] == UC_A && s[2] == UC_A && s[3] == UC_A) || (
    s[0] == LC_A && s[1] == LC_A && s[2] == LC_A && s[3] == LC_A)) {
        Some(RecordType::AAAA)
    } else if s.len() == 3 && ((s[0] == UC_C && s[1] == UC_A && s[2] == UC_A) || (s[0] == LC_C
        && s[1] == LC_A && s[2] == LC_A)) {
        Some(RecordType::CAA)
    } else if s.len() == 5 && ((s[0] == UC_C && s[1] == UC_N && s[2] == UC_A && s[3] == UC_M
        && s[4] == UC_E) || (s[0] == LC_C && s[1] == LC_N && s[2] == LC_A && s[3] == LC_M && s[4]
        == LC_E)) {
        Some(RecordType::CNAME)
    } else if s.len() == 2 && ((s[0] == UC_M && s[1] == UC_X) || (s[0] == LC_M && s[1] == LC_X)) {
        Some(RecordType::MX)
    } else if s.len() == 2 && ((s[0] == UC_N && s[1] == UC_S) || (s[0] == LC_N && s[1] == LC_S)) {
        Some(RecordType::NS)
    } else if s.len() == 3 && ((s[0] == UC_S && s[1] == UC_R && s[2] == UC_V) || (s[0] == LC_S
        && s[1] == LC_R && s[2] == LC_V)) {
        Some(RecordType::SRV)
    } else if s.len() == 3 && ((s[0] == UC_T && s[1] == UC_X && s[2] == UC_T) || (s[0] == LC_T
        && s[1] == LC_X && s[2] == LC_T)) {
        Some(RecordType::TXT)
    } else {
        None
    }
}

impl RecordType {
    /// Parses a record-type name: `Ok` exactly on the spellings that
    /// [`cli_type_of`] accepts, `Err` with a fixed message otherwise.
    pub fn from_str(s: &str) -> (r: Result<RecordType, String>)
        ensures
            match r {
                Ok(t) => cli_type_of(s.spec_bytes()) == Some(t),
                Err(m) => cli_type_of(s.spec_bytes()) is None && m@ == "invalid record type"@,
            },
    {
        let b = s.as_bytes();
        let n = b.len();
        if n == 1 && (b[0] == UC_A || b[0] == LC_A) {
            Ok(RecordType::A)
        } else if n == 4 && ((b[0] == UC_A && b[1] == UC_A && b[2] == UC_A && b[3] == UC_A) || (
        b[0] == LC_A && b[1] == LC_A && b[2] == LC_A && b[3] == LC_A)) {
            Ok(RecordType::AAAA)
        } else if n == 3 && ((b[0] == UC_C && b[1] == UC_A && b[2] == UC_A) || (b[0] == LC_C && b[1]
            == LC_A && b[2] == LC_A)) {
            Ok(RecordType::CAA)
        } else if n == 5 && ((b[0] == UC_C && b[1] == UC_N && b[2] == UC_A && b[3] == UC_M && b[4]
            == UC_E) || (b[0] == LC_C && b[1] == LC_N && b[2] == LC_A && b[3] == LC_M && b[4]
            == LC_E)) {
            Ok(RecordType::CNAME)
        } else if n == 2 && ((b[0] == UC_M && b[1] == UC_X) || (b[0] == LC_M && b[1] == LC_X)) {
            Ok(RecordType::MX)
        } else if n == 2 && ((b[0] == UC_N && b[1] == UC_S) || (b[0] == LC_N && b[1] == LC_S)) {
            Ok(RecordType::NS)
        } else if n == 3 && ((b[0] == UC_S && b[1] == UC_R && b[2] == UC_V) || (b[0] == LC_S && b[1]
            == LC_R && b[2] == LC_V)) {
            Ok(RecordType::SRV)
        } else if n == 3 && ((b[0] == UC_T && b[1] == UC_X && b[2] == UC_T) || (b[0] == LC_T && b[1]
            == LC_X && b[2] == LC_T)) {
            Ok(RecordType::TXT)
        } else {
            Err("invalid record type".to_owned())
        }
    }
}

/// Interact with records within a zone.
pub struct Args {
    /// The ID of the zone to operate in.
    pub zone: String,
    /// The action to take.
    pub action: Action,
}

pub enum Action {
    List(List),
    Get(Get),
    Create(Create),
    Update(Update),
    Delete(Delete),
}

/// List all records.
pub struct List {}

/// Get information about a record.
pub struct Get {
    /// The ID of the record to get.
    pub id: String,
}

/// Create a new record.
pub struct Create {
    /// Set the name.
    pub name: String,
    /// Set the type.
    pub type_: RecordType,
    /// Set the Time-To-Live.
    pub ttl: Option<usize>,
    /// Set the value to the host's current public IP address.
    pub ddns: bool,
    /// Set the value to the given string.
    pub value: String,
}

/// Update a record.
pub struct Update {
    /// The ID of the record to update.
    pub id: String,
    /// Set the name.
    pub name: Option<String>,
    /// Set the type.
    pub type_: Option<RecordType>,
    /// Set the Time-To-Live.
    pub ttl: Option<usize>,
    /// Set the value to the host's current public IP address.
    pub ddns: bool,
    /// Set the value to the given string.
    pub value: String,
}

/// Delete a record.
pub struct Delete {
    /// The ID of the record to delete.
    pub id: String,
    /// Don't prompt for confirmation.
    pub yes_really_delete: bool,
}

} // verus!
