//! The data model: zones, resource records, rdata variants, and their
//! mathematical views, together with well-formedness predicates.

use vstd::prelude::*;

verus! {

use crate::ascii::{D0, D9, DOT, HYPHEN, LC_A, LC_Z, UC_A, UC_Z, UNDERSCORE};

/// The record types the engine understands.
#[derive(Clone, Copy, PartialEq, Eq, Structural, Debug)]
pub enum RrType {
    A,
    Aaaa,
    Caa,
    Cname,
    Mx,
    Ns,
    Srv,
    Txt,
    Soa,
}

/// Type-specific record data. Domain names are stored as ASCII bytes in
/// absolute form (trailing dot); numeric fields are kept as `u32` so that
/// out-of-range values survive parsing and are reported by the validator.
#[derive(Debug)]
pub enum Rdata {
    A { o0: u8, o1: u8, o2: u8, o3: u8 },
    Aaaa { groups: Vec<u16> },
    Caa { flag: u32, tag: Vec<u8>, value: Vec<u8> },
    Cname { target: Vec<u8> },
    Mx { priority: u32, exchange: Vec<u8> },
    Ns { target: Vec<u8> },
    Srv { priority: u32, weight: u32, port: u32, target: Vec<u8> },
    Txt { chunks: Vec<Vec<u8>> },
    Soa {
        mname: Vec<u8>,
        rname: Vec<u8>,
        serial: u32,
        refresh: u32,
        retry: u32,
        expire: u32,
        minimum: u32,
    },
}

/// Mathematical view of [`Rdata`].
pub enum RdataView {
    A { o0: u8, o1: u8, o2: u8, o3: u8 },
    Aaaa { groups: Seq<u16> },
    Caa { flag: u32, tag: Seq<u8>, value: Seq<u8> },
    Cname { target: Seq<u8> },
    Mx { priority: u32, exchange: Seq<u8> },
    Ns { target: Seq<u8> },
    Srv { priority: u32, weight: u32, port: u32, target: Seq<u8> },
    Txt { chunks: Seq<Seq<u8>> },
    Soa {
        mname: Seq<u8>,
        rname: Seq<u8>,
        serial: u32,
        refresh: u32,
        retry: u32,
        expire: u32,
        minimum: u32,
    },
}

impl DeepView for Rdata {
    type V = RdataView;

    open spec fn deep_view(&self) -> RdataView {
        match self {
            Rdata::A { o0, o1, o2, o3 } => RdataView::A {
                o0: *o0,
                o1: *o1,
                o2: *o2,
                o3: *o3,
            },
            Rdata::Aaaa { groups } => RdataView::Aaaa { groups: groups@ },
            Rdata::Caa { flag, tag, value } => RdataView::Caa {
                flag: *flag,
                tag: tag@,
                value: value@,
            },
            Rdata::Cname { target } => RdataView::Cname { target: target@ },
            Rdata::Mx { priority, exchange } => RdataView::Mx {
                priority: *priority,
                exchange: exchange@,
            },
            Rdata::Ns { target } => RdataView::Ns { target: target@ },
            Rdata::Srv { priority, weight, port, target } => RdataView::Srv {
                priority: *priority,
                weight: *weight,
                port: *port,
                target: target@,
            },
            Rdata::Txt { chunks } => RdataView::Txt { chunks: chunks.deep_view() },
            Rdata::Soa { mname, rname, serial, refresh, retry, expire, minimum } => RdataView::Soa {
                mname: mname@,
                rname: rname@,
                serial: *serial,
                refresh: *refresh,
                retry: *retry,
                expire: *expire,
                minimum: *minimum,
            },
        }
    }
}

/// One resource record. The owner name is always stored in absolute form;
/// relative names are resolved against the origin at parse time. The class
/// is always `IN` and is therefore not stored.
#[derive(Debug)]
pub struct ResourceRecord {
    pub owner: Vec<u8>,
    pub ttl: u32,
    pub rtype: RrType,
    pub rdata: Rdata,
}

/// Mathematical view of [`ResourceRecord`].
pub struct RecordView {
    pub owner: Seq<u8>,
    pub ttl: u32,
    pub rtype: RrType,
    pub rdata: RdataView,
}

impl DeepView for ResourceRecord {
    type V = RecordView;

    open spec fn deep_view(&self) -> RecordView {
        RecordView {
            owner: self.owner@,
            ttl: self.ttl,
            rtype: self.rtype,
            rdata: self.rdata.deep_view(),
        }
    }
}

/// A parsed zone: the effective origin (absolute), the default TTL that
/// was in force at the end of the file (if any), and the records in file
/// order.
#[derive(Debug)]
pub struct Zone {
    pub origin: Vec<u8>,
    pub default_ttl: Option<u32>,
    pub records: Vec<ResourceRecord>,
}

/// Mathematical view of [`Zone`].
pub struct ZoneView {
    pub origin: Seq<u8>,
    pub default_ttl: Option<u32>,
    pub records: Seq<RecordView>,
}

impl DeepView for Zone {
    type V = ZoneView;

    open spec fn deep_view(&self) -> ZoneView {
        ZoneView {
            origin: self.origin@,
            default_ttl: self.default_ttl,
            records: self.records.deep_view(),
        }
    }
}

/// Bytes allowed inside a domain-name label.
pub open spec fn name_byte_ok(b: u8) -> bool {
    (LC_A <= b && b <= LC_Z) || (UC_A <= b && b <= UC_Z) || (D0 <= b && b <= D9) || b == HYPHEN
        || b == UNDERSCORE
}

/// Scans a name from position `i` with `lab` bytes of the current label
/// already read: every label must have 1 to 63 bytes, and the name must
/// end directly after a dot (absolute form).
pub open spec fn name_scan(s: Seq<u8>, i: int, lab: int) -> bool
    decreases s.len() - i,
{
    if i < 0 || i >= s.len() {
        lab == 0
    } else if s[i] == DOT {
        1 <= lab <= 63 && name_scan(s, i + 1, 0)
    } else {
        name_byte_ok(s[i]) && name_scan(s, i + 1, lab + 1)
    }
}

/// Syntactic validity of an absolute domain name: the root name `.`, or a
/// dot-terminated sequence of labels of 1 to 63 allowed bytes each, at
/// most 255 bytes in all.
pub open spec fn valid_name(s: Seq<u8>) -> bool {
    s == seq![DOT] || (1 <= s.len() <= 255 && s[0] != DOT && name_scan(s, 0, 0))
}

/// An absolute name: non-empty and dot-terminated. Weaker than
/// [`valid_name`]; this is all the parser itself guarantees, the
/// validator checks full syntax.
pub open spec fn absolute_name(s: Seq<u8>) -> bool {
    s.len() >= 1 && s[s.len() - 1] == DOT
}

} // verus!
