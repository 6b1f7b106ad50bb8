//! The validator: runs over the complete record set and collects every
//! diagnostic in one pass. Errors block an import; warnings are
//! advisory.

use vstd::prelude::*;

verus! {

use crate::ascii::DOT;
use crate::diag::{Diagnostic, DiagnosticCode, Severity};
use crate::model::{name_byte_ok, name_scan, valid_name, RdataView, RecordView, RrType, Zone};

/// An error-level diagnostic for record `i`.
pub open spec fn err_diag(code: DiagnosticCode, i: usize) -> Diagnostic {
    Diagnostic { severity: Severity::Error, code, record_index: i }
}

/// A warning-level diagnostic for record `i`.
pub open spec fn warn_diag(code: DiagnosticCode, i: usize) -> Diagnostic {
    Diagnostic { severity: Severity::Warning, code, record_index: i }
}

/// How many of the first `i` records are SOA records.
pub open spec fn soa_count_prefix(recs: Seq<RecordView>, i: int) -> int
    decreases i,
        when 0 <= i <= recs.len()
{
    if i <= 0 {
        0
    } else {
        soa_count_prefix(recs, i - 1) + (if recs[i - 1].rtype == RrType::Soa {
            1int
        } else {
            0int
        })
    }
}

/// The number of SOA records in the zone.
pub open spec fn soa_count(recs: Seq<RecordView>) -> int {
    soa_count_prefix(recs, recs.len() as int)
}

/// The index of the first SOA record, if any.
pub open spec fn first_soa(recs: Seq<RecordView>, i: int) -> Option<int>
    decreases recs.len() - i,
        when 0 <= i
{
    if i >= recs.len() {
        None
    } else if recs[i].rtype == RrType::Soa {
        Some(i)
    } else {
        first_soa(recs, i + 1)
    }
}

/// The SOA-count diagnostic: present exactly when the zone does not
/// hold one single SOA record, tied to the first SOA if there is one.
pub open spec fn soa_diag(recs: Seq<RecordView>) -> Seq<Diagnostic> {
    if soa_count(recs) != 1 {
        let i: usize = match first_soa(recs, 0) {
            Some(j) => j as usize,
            None => 0,
        };
        seq![err_diag(DiagnosticCode::InvalidSoaCount, i)]
    } else {
        Seq::empty()
    }
}

/// Whether some TXT chunk exceeds the 255-byte wire limit.
pub open spec fn txt_over(chunks: Seq<Seq<u8>>) -> bool {
    exists|j: int| 0 <= j < chunks.len() && chunks[j].len() > 255
}

/// The per-record diagnostics that depend on the rdata alone: numeric
/// field ranges, target-name syntax, and the SOA timing advisory.
pub open spec fn rdata_diags(rd: RdataView, i: usize) -> Seq<Diagnostic> {
    match rd {
        RdataView::A { o0, o1, o2, o3 } => Seq::empty(),
        RdataView::Aaaa { groups } => Seq::empty(),
        RdataView::Caa { flag, tag, value } => if flag > 255 {
            seq![err_diag(DiagnosticCode::FieldRangeError, i)]
        } else {
            Seq::empty()
        },
        RdataView::Cname { target } => if !valid_name(target) {
            seq![err_diag(DiagnosticCode::InvalidDomainName, i)]
        } else {
            Seq::empty()
        },
        RdataView::Ns { target } => if !valid_name(target) {
            seq![err_diag(DiagnosticCode::InvalidDomainName, i)]
        } else {
            Seq::empty()
        },
        RdataView::Mx { priority, exchange } => (if priority > 65535 {
            seq![err_diag(DiagnosticCode::FieldRangeError, i)]
        } else {
            Seq::empty()
        }) + (if !valid_name(exchange) {
            seq![err_diag(DiagnosticCode::InvalidDomainName, i)]
        } else {
            Seq::empty()
        }),
        RdataView::Srv { priority, weight, port, target } => (if priority > 65535 {
            seq![err_diag(DiagnosticCode::FieldRangeError, i)]
        } else {
            Seq::empty()
        }) + (if weight > 65535 {
            seq![err_diag(DiagnosticCode::FieldRangeError, i)]
        } else {
            Seq::empty()
        }) + (if port > 65535 {
            seq![err_diag(DiagnosticCode::FieldRangeError, i)]
        } else {
            Seq::empty()
        }) + (if !valid_name(target) {
            seq![err_diag(DiagnosticCode::InvalidDomainName, i)]
        } else {
            Seq::empty()
        }),
        RdataView::Txt { chunks } => if txt_over(chunks) {
            seq![err_diag(DiagnosticCode::FieldRangeError, i)]
        } else {
            Seq::empty()
        },
        RdataView::Soa { mname, rname, serial, refresh, retry, expire, minimum } => if refresh
            >= expire {
            seq![warn_diag(DiagnosticCode::SoaTimingAdvisory, i)]
        } else {
            Seq::empty()
        },
    }
}

/// Whether some other record shares record `i`'s owner name.
pub open spec fn owner_shared(recs: Seq<RecordView>, i: int) -> bool {
    exists|j: int| 0 <= j < recs.len() && j != i && recs[j].owner == recs[i].owner
}

/// All diagnostics of record `i`: rdata checks, then CNAME
/// exclusivity.
pub open spec fn record_diags(recs: Seq<RecordView>, i: int) -> Seq<Diagnostic>
    recommends
        0 <= i < recs.len(),
{
    rdata_diags(recs[i].rdata, i as usize) + (if recs[i].rtype == RrType::Cname && owner_shared(
        recs,
        i,
    ) {
        seq![err_diag(DiagnosticCode::CnameExclusivityViolation, i as usize)]
    } else {
        Seq::empty()
    })
}

/// The diagnostics of the first `i` records, in record order.
pub open spec fn diags_prefix(recs: Seq<RecordView>, i: int) -> Seq<Diagnostic>
    decreases i,
        when 0 <= i <= recs.len()
{
    if i <= 0 {
        Seq::empty()
    } else {
        diags_prefix(recs, i - 1) + record_diags(recs, i - 1)
    }
}

/// Everything the validator reports: the SOA-count check, then each
/// record's diagnostics in record order.
pub open spec fn spec_validate(recs: Seq<RecordView>) -> Seq<Diagnostic> {
    soa_diag(recs) + diags_prefix(recs, recs.len() as int)
}

/// A record set is valid when the validator reports no error-level
/// diagnostic for it.
pub open spec fn spec_zone_valid(recs: Seq<RecordView>) -> bool {
    forall|k: int|
        0 <= k < spec_validate(recs).len() ==> (#[trigger] spec_validate(recs)[k]).severity
            != Severity::Error
}

fn name_byte_ok_exec(b: u8) -> (r: bool)
    ensures
        r == name_byte_ok(b),
{
    (crate::ascii::LC_A <= b && b <= crate::ascii::LC_Z) || (crate::ascii::UC_A <= b && b
        <= crate::ascii::UC_Z) || (crate::ascii::D0 <= b && b <= crate::ascii::D9) || b
        == crate::ascii::HYPHEN || b == crate::ascii::UNDERSCORE
}

fn name_scan_exec(s: &Vec<u8>, i: usize, lab: usize) -> (r: bool)
    requires
        i <= s.len(),
        lab <= i,
    ensures
        r == name_scan(s@, i as int, lab as int),
    decreases s.len() - i,
{
    if i >= s.len() {
        lab == 0
    } else if s[i] == DOT {
        if 1 <= lab && lab <= 63 {
            name_scan_exec(s, i + 1, 0)
        } else {
            false
        }
    } else {
        if name_byte_ok_exec(s[i]) {
            name_scan_exec(s, i + 1, lab + 1)
        } else {
            false
        }
    }
}

/// Checks domain-name syntax, exactly as [`valid_name`] describes.
pub fn valid_name_exec(s: &Vec<u8>) -> (r: bool)
    ensures
        r == valid_name(s@),
{
    if s.len() == 1 && s[0] == DOT {
        proof {
            assert(s@ =~= seq![DOT]);
        }
        true
    } else if s.len() >= 1 && s.len() <= 255 && s[0] != DOT {
        name_scan_exec(s, 0, 0)
    } else {
        proof {
            assert(s@ != seq![DOT]);
        }
        false
    }
}

/// Compares two byte strings for equality of their contents.
pub fn bytes_eq(a: &Vec<u8>, b: &Vec<u8>) -> (r: bool)
    ensures
        r == (a@ == b@),
{
    if a.len() != b.len() {
        return false;
    }
    let mut i: usize = 0;
    while i < a.len()
        invariant
            i <= a.len(),
            a.len() == b.len(),
            forall|j: int| 0 <= j < i ==> a@[j] == b@[j],
        decreases a.len() - i,
    {
        if a[i] != b[i] {
            return false;
        }
        i = i + 1;
    }
    proof {
        assert(a@ =~= b@);
    }
    true
}

fn is_soa_rec(r: &crate::model::ResourceRecord) -> (b: bool)
    ensures
        b == (r.deep_view().rtype == RrType::Soa),
{
    match r.rtype {
        RrType::Soa => true,
        _ => false,
    }
}

fn push_all(out: &mut Vec<Diagnostic>, src: &Vec<Diagnostic>)
    ensures
        final(out)@ == old(out)@ + src@,
{
    let mut i: usize = 0;
    while i < src.len()
        invariant
            i <= src.len(),
            out@ == old(out)@ + src@.subrange(0, i as int),
        decreases src.len() - i,
    {
        out.push(src[i]);
        proof {
            assert(out@ =~= old(out)@ + src@.subrange(0, i + 1));
        }
        i = i + 1;
    }
    proof {
        assert(src@.subrange(0, src@.len() as int) =~= src@);
    }
}

fn rdata_diags_exec(rd: &crate::model::Rdata, i: usize) -> (r: Vec<Diagnostic>)
    ensures
        r@ == rdata_diags(rd.deep_view(), i),
{
    let mut out: Vec<Diagnostic> = Vec::new();
    match rd {
        crate::model::Rdata::A { .. } => {},
        crate::model::Rdata::Aaaa { .. } => {},
        crate::model::Rdata::Caa { flag, .. } => {
            if *flag > 255 {
                out.push(
                    Diagnostic {
                        severity: Severity::Error,
                        code: DiagnosticCode::FieldRangeError,
                        record_index: i,
                    },
                );
            }
        },
        crate::model::Rdata::Cname { target } => {
            if !valid_name_exec(target) {
                out.push(
                    Diagnostic {
                        severity: Severity::Error,
                        code: DiagnosticCode::InvalidDomainName,
                        record_index: i,
                    },
                );
            }
        },
        crate::model::Rdata::Ns { target } => {
            if !valid_name_exec(target) {
                out.push(
                    Diagnostic {
                        severity: Severity::Error,
                        code: DiagnosticCode::InvalidDomainName,
                        record_index: i,
                    },
                );
            }
        },
        crate::model::Rdata::Mx { priority, exchange } => {
            if *priority > 65535 {
                out.push(
                    Diagnostic {
                        severity: Severity::Error,
                        code: DiagnosticCode::FieldRangeError,
                        record_index: i,
                    },
                );
            }
            if !valid_name_exec(exchange) {
                out.push(
                    Diagnostic {
                        severity: Severity::Error,
                        code: DiagnosticCode::InvalidDomainName,
                        record_index: i,
                    },
                );
            }
        },
        crate::model::Rdata::Srv { priority, weight, port, target } => {
            if *priority > 65535 {
                out.push(
                    Diagnostic {
                        severity: Severity::Error,
                        code: DiagnosticCode::FieldRangeError,
                        record_index: i,
                    },
                );
            }
            if *weight > 65535 {
                out.push(
                    Diagnostic {
                        severity: Severity::Error,
                        code: DiagnosticCode::FieldRangeError,
                        record_index: i,
                    },
                );
            }
            if *port > 65535 {
                out.push(
                    Diagnostic {
                        severity: Severity::Error,
                        code: DiagnosticCode::FieldRangeError,
                        record_index: i,
                    },
                );
            }
            if !valid_name_exec(target) {
                out.push(
                    Diagnostic {
                        severity: Severity::Error,
                        code: DiagnosticCode::InvalidDomainName,
                        record_index: i,
                    },
                );
            }
        },
        crate::model::Rdata::Txt { chunks } => {
            let mut over: bool = false;
            let mut j: usize = 0;
            while j < chunks.len()
                invariant
                    j <= chunks.len(),
                    over == exists|k: int|
                        0 <= k < j && chunks.deep_view()[k].len() > 255,
                decreases chunks.len() - j,
            {
                if chunks[j].len() > 255 {
                    proof {
                        assert(chunks.deep_view()[j as int].len() > 255);
                    }
                    over = true;
                }
                j = j + 1;
            }
            if over {
                out.push(
                    Diagnostic {
                        severity: Severity::Error,
                        code: DiagnosticCode::FieldRangeError,
                        record_index: i,
                    },
                );
            }
        },
        crate::model::Rdata::Soa { refresh, expire, .. } => {
            if *refresh >= *expire {
                out.push(
                    Diagnostic {
                        severity: Severity::Warning,
                        code: DiagnosticCode::SoaTimingAdvisory,
                        record_index: i,
                    },
                );
            }
        },
    }
    proof {
        assert(out@ =~= rdata_diags(rd.deep_view(), i));
    }
    out
}

/// Collects every diagnostic of the zone's record set, exactly as
/// [`spec_validate`] describes.
pub fn validate(z: &Zone) -> (r: Vec<Diagnostic>)
    ensures
        r@ == spec_validate(z.records.deep_view()),
{
    let recs = &z.records;
    proof {
        assert(recs.deep_view().len() == recs@.len());
        assert(forall|j: int|
            0 <= j < recs@.len() ==> recs.deep_view()[j] == recs@[j].deep_view());
    }
    let mut out: Vec<Diagnostic> = Vec::new();
    // SOA count.
    let mut cnt: usize = 0;
    let mut i: usize = 0;
    while i < recs.len()
        invariant
            i <= recs.len(),
            cnt <= i,
            out@ == Seq::<Diagnostic>::empty(),
            cnt as int == soa_count_prefix(recs.deep_view(), i as int),
            forall|j: int|
                0 <= j < recs@.len() ==> recs.deep_view()[j] == recs@[j].deep_view(),
        decreases recs.len() - i,
    {
        if is_soa_rec(&recs[i]) {
            cnt = cnt + 1;
        }
        i = i + 1;
    }
    proof {
        assert(i == recs@.len());
        assert(soa_count(recs.deep_view()) == cnt as int);
    }
    if cnt != 1 {
        // Find the first SOA, if any.
        let mut idx: usize = 0;
        let mut k: usize = 0;
        let mut found: bool = false;
        while k < recs.len() && !found
            invariant
                k <= recs.len(),
                out@ == Seq::<Diagnostic>::empty(),
                soa_count(recs.deep_view()) == cnt as int,
                cnt != 1,
                recs.deep_view().len() == recs@.len(),
                forall|j: int|
                    0 <= j < recs@.len() ==> recs.deep_view()[j] == recs@[j].deep_view(),
                !found ==> first_soa(recs.deep_view(), 0) == first_soa(recs.deep_view(), k as int),
                found ==> first_soa(recs.deep_view(), 0) == Some(idx as int),
                !found ==> idx == 0,
            decreases recs.len() - k,
        {
            if is_soa_rec(&recs[k]) {
                idx = k;
                found = true;
            }
            k = k + 1;
        }
        proof {
            assert(found ==> first_soa(recs.deep_view(), 0) == Some(idx as int));
            assert(!found ==> k == recs@.len());
            assert(k as int >= recs.deep_view().len() ==> first_soa(recs.deep_view(), k as int)
                is None);
            assert(!found ==> first_soa(recs.deep_view(), 0) is None);
            assert(!found ==> idx == 0);
        }
        out.push(
            Diagnostic {
                severity: Severity::Error,
                code: DiagnosticCode::InvalidSoaCount,
                record_index: idx,
            },
        );
        proof {
            assert(soa_count(recs.deep_view()) != 1);
            assert(soa_diag(recs.deep_view()) == seq![err_diag(DiagnosticCode::InvalidSoaCount, idx)]);
            assert(out@ =~= soa_diag(recs.deep_view()));
        }
    }
    proof {
        assert(recs.deep_view().len() == recs@.len());
        assert(soa_count(recs.deep_view()) == cnt as int);
        assert(out@ =~= soa_diag(recs.deep_view()));
        assert(out@ =~= soa_diag(recs.deep_view()) + diags_prefix(recs.deep_view(), 0));
    }
    // Per-record diagnostics.
    let mut i2: usize = 0;
    while i2 < recs.len()
        invariant
            i2 <= recs.len(),
            forall|j: int|
                0 <= j < recs@.len() ==> recs.deep_view()[j] == recs@[j].deep_view(),
            out@ == soa_diag(recs.deep_view()) + diags_prefix(recs.deep_view(), i2 as int),
        decreases recs.len() - i2,
    {
        let rd = rdata_diags_exec(&recs[i2].rdata, i2);
        push_all(&mut out, &rd);
        // CNAME exclusivity.
        let is_cname: bool = match recs[i2].rtype {
            RrType::Cname => true,
            _ => false,
        };
        let mut dup: bool = false;
        if is_cname {
            let mut j: usize = 0;
            while j < recs.len()
                invariant
                    j <= recs.len(),
                    i2 < recs.len(),
                    forall|jj: int|
                        0 <= jj < recs@.len() ==> recs.deep_view()[jj] == recs@[jj].deep_view(),
                    dup == exists|jj: int|
                        0 <= jj < j && jj != i2 && recs.deep_view()[jj].owner
                            == recs.deep_view()[i2 as int].owner,
                decreases recs.len() - j,
            {
                if j != i2 {
                    if bytes_eq(&recs[j].owner, &recs[i2].owner) {
                        proof {
                            assert(recs.deep_view()[j as int].owner
                                == recs.deep_view()[i2 as int].owner);
                        }
                        dup = true;
                    }
                }
                j = j + 1;
            }
        }
        if is_cname && dup {
            out.push(
                Diagnostic {
                    severity: Severity::Error,
                    code: DiagnosticCode::CnameExclusivityViolation,
                    record_index: i2,
                },
            );
        }
        proof {
            assert(out@ =~= soa_diag(recs.deep_view()) + diags_prefix(
                recs.deep_view(),
                i2 + 1,
            ));
        }
        i2 = i2 + 1;
    }
    proof {
        assert(out@ == spec_validate(z.records.deep_view()));
    }
    out
}

} // verus!
