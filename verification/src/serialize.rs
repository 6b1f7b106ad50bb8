//! The serializer: renders a zone back into canonical zone-file text.
//! The `$ORIGIN` line comes first, then the SOA records, then the
//! remaining records grouped by owner name in first-appearance order;
//! each group writes its owner once and indents the rest. Every record
//! is a single line with an explicit TTL and class.

use vstd::prelude::*;

verus! {

use crate::ascii::{COLON, DOLLAR, DOT, DQUOTE, BACKSLASH, HT, NL, SP, UC_A, UC_C, UC_E, UC_G, UC_I,
    UC_M, UC_N, UC_O, UC_R, UC_S, UC_T, UC_V, UC_X, D0};
use crate::model::{Rdata, RdataView, RecordView, ResourceRecord, RrType, Zone, ZoneView};
use crate::num::{push_dec, push_hex, spec_dec_digits, spec_hex_digits};

/// The canonical spelling of a record type.
pub open spec fn type_str(rt: RrType) -> Seq<u8> {
    match rt {
        RrType::A => seq![UC_A],
        RrType::Aaaa => seq![UC_A, UC_A, UC_A, UC_A],
        RrType::Caa => seq![UC_C, UC_A, UC_A],
        RrType::Cname => seq![UC_C, UC_N, UC_A, UC_M, UC_E],
        RrType::Mx => seq![UC_M, UC_X],
        RrType::Ns => seq![UC_N, UC_S],
        RrType::Srv => seq![UC_S, UC_R, UC_V],
        RrType::Txt => seq![UC_T, UC_X, UC_T],
        RrType::Soa => seq![UC_S, UC_O, UC_A],
    }
}

fn push_type(out: &mut Vec<u8>, rt: RrType)
    ensures
        final(out)@ == old(out)@ + type_str(rt),
{
    let ghost pre = out@;
    match rt {
        RrType::A => {
            out.push(UC_A);
        },
        RrType::Aaaa => {
            out.push(UC_A);
            out.push(UC_A);
            out.push(UC_A);
            out.push(UC_A);
        },
        RrType::Caa => {
            out.push(UC_C);
            out.push(UC_A);
            out.push(UC_A);
        },
        RrType::Cname => {
            out.push(UC_C);
            out.push(UC_N);
            out.push(UC_A);
            out.push(UC_M);
            out.push(UC_E);
        },
        RrType::Mx => {
            out.push(UC_M);
            out.push(UC_X);
        },
        RrType::Ns => {
            out.push(UC_N);
            out.push(UC_S);
        },
        RrType::Srv => {
            out.push(UC_S);
            out.push(UC_R);
            out.push(UC_V);
        },
        RrType::Txt => {
            out.push(UC_T);
            out.push(UC_X);
            out.push(UC_T);
        },
        RrType::Soa => {
            out.push(UC_S);
            out.push(UC_O);
            out.push(UC_A);
        },
    }
    proof {
        assert(out@ =~= pre + type_str(rt));
    }
}

/// An IPv4 address as a dotted quad.
pub open spec fn ser_ipv4(o0: u8, o1: u8, o2: u8, o3: u8) -> Seq<u8> {
    spec_dec_digits(o0 as nat) + seq![DOT] + spec_dec_digits(o1 as nat) + seq![DOT]
        + spec_dec_digits(o2 as nat) + seq![DOT] + spec_dec_digits(o3 as nat)
}

/// The first `j` IPv6 groups, colon-separated, in lowercase hex.
pub open spec fn ser_ipv6_prefix(gs: Seq<u16>, j: int) -> Seq<u8>
    decreases j,
        when 0 <= j <= gs.len()
{
    if j <= 0 {
        Seq::empty()
    } else if j == 1 {
        spec_hex_digits(gs[0] as nat)
    } else {
        ser_ipv6_prefix(gs, j - 1) + seq![COLON] + spec_hex_digits(gs[j - 1] as nat)
    }
}

fn push_ipv6(out: &mut Vec<u8>, gs: &Vec<u16>)
    ensures
        final(out)@ == old(out)@ + ser_ipv6_prefix(gs@, gs@.len() as int),
{
    let mut j: usize = 0;
    while j < gs.len()
        invariant
            j <= gs.len(),
            out@ == old(out)@ + ser_ipv6_prefix(gs@, j as int),
        decreases gs.len() - j,
    {
        let ghost pre = out@;
        if j > 0 {
            out.push(COLON);
        }
        push_hex(out, gs[j]);
        proof {
            assert(out@ =~= old(out)@ + ser_ipv6_prefix(gs@, j + 1));
        }
        j = j + 1;
    }
}

/// A byte inside a quoted string: quote and backslash are escaped,
/// non-printing bytes become three-digit decimal escapes.
pub open spec fn esc_byte(b: u8) -> Seq<u8> {
    if b == DQUOTE || b == BACKSLASH {
        seq![BACKSLASH, b]
    } else if b < 32 || b > 126 {
        seq![
            BACKSLASH,
            (D0 + b / 100) as u8,
            (D0 + (b / 10) % 10) as u8,
            (D0 + b % 10) as u8,
        ]
    } else {
        seq![b]
    }
}

/// The escaped form of the first `j` bytes.
pub open spec fn esc_prefix(s: Seq<u8>, j: int) -> Seq<u8>
    decreases j,
        when 0 <= j <= s.len()
{
    if j <= 0 {
        Seq::empty()
    } else {
        esc_prefix(s, j - 1) + esc_byte(s[j - 1])
    }
}

/// A quoted, escaped character-string.
pub open spec fn ser_quoted(s: Seq<u8>) -> Seq<u8> {
    seq![DQUOTE] + esc_prefix(s, s.len() as int) + seq![DQUOTE]
}

fn push_quoted(out: &mut Vec<u8>, s: &Vec<u8>)
    ensures
        final(out)@ == old(out)@ + ser_quoted(s@),
{
    out.push(DQUOTE);
    let ghost base = out@;
    let mut j: usize = 0;
    while j < s.len()
        invariant
            j <= s.len(),
            out@ == base + esc_prefix(s@, j as int),
        decreases s.len() - j,
    {
        let b = s[j];
        if b == DQUOTE || b == BACKSLASH {
            out.push(BACKSLASH);
            out.push(b);
        } else if b < 32 || b > 126 {
            out.push(BACKSLASH);
            out.push(D0 + b / 100);
            out.push(D0 + (b / 10) % 10);
            out.push(D0 + b % 10);
        } else {
            out.push(b);
        }
        proof {
            assert(out@ =~= base + esc_prefix(s@, j + 1));
        }
        j = j + 1;
    }
    out.push(DQUOTE);
    proof {
        assert(out@ =~= old(out)@ + ser_quoted(s@));
    }
}

/// The quoted chunks of a TXT record from `j` on, space-separated.
pub open spec fn ser_chunks(chunks: Seq<Seq<u8>>, j: int) -> Seq<u8>
    decreases j,
        when 0 <= j <= chunks.len()
{
    if j <= 0 {
        Seq::empty()
    } else if j == 1 {
        ser_quoted(chunks[0])
    } else {
        ser_chunks(chunks, j - 1) + seq![SP] + ser_quoted(chunks[j - 1])
    }
}

/// The canonical rdata text of a record.
pub open spec fn ser_rdata(rd: RdataView) -> Seq<u8> {
    match rd {
        RdataView::A { o0, o1, o2, o3 } => ser_ipv4(o0, o1, o2, o3),
        RdataView::Aaaa { groups } => ser_ipv6_prefix(groups, groups.len() as int),
        RdataView::Caa { flag, tag, value } => spec_dec_digits(flag as nat) + seq![SP] + tag
            + seq![SP] + ser_quoted(value),
        RdataView::Cname { target } => target,
        RdataView::Ns { target } => target,
        RdataView::Mx { priority, exchange } => spec_dec_digits(priority as nat) + seq![SP]
            + exchange,
        RdataView::Srv { priority, weight, port, target } => spec_dec_digits(priority as nat)
            + seq![SP] + spec_dec_digits(weight as nat) + seq![SP] + spec_dec_digits(port as nat)
            + seq![SP] + target,
        RdataView::Txt { chunks } => ser_chunks(chunks, chunks.len() as int),
        RdataView::Soa { mname, rname, serial, refresh, retry, expire, minimum } => mname
            + seq![SP] + rname + seq![SP] + spec_dec_digits(serial as nat) + seq![SP]
            + spec_dec_digits(refresh as nat) + seq![SP] + spec_dec_digits(retry as nat)
            + seq![SP] + spec_dec_digits(expire as nat) + seq![SP] + spec_dec_digits(
            minimum as nat,
        ),
    }
}

fn push_rdata(out: &mut Vec<u8>, rd: &Rdata)
    ensures
        final(out)@ == old(out)@ + ser_rdata(rd.deep_view()),
{
    let ghost pre = out@;
    match rd {
        Rdata::A { o0, o1, o2, o3 } => {
            push_dec(out, *o0 as u32);
            out.push(DOT);
            push_dec(out, *o1 as u32);
            out.push(DOT);
            push_dec(out, *o2 as u32);
            out.push(DOT);
            push_dec(out, *o3 as u32);
        },
        Rdata::Aaaa { groups } => {
            push_ipv6(out, groups);
        },
        Rdata::Caa { flag, tag, value } => {
            push_dec(out, *flag);
            out.push(SP);
            crate::parse::push_bytes(out, tag);
            out.push(SP);
            push_quoted(out, value);
        },
        Rdata::Cname { target } => {
            crate::parse::push_bytes(out, target);
        },
        Rdata::Ns { target } => {
            crate::parse::push_bytes(out, target);
        },
        Rdata::Mx { priority, exchange } => {
            push_dec(out, *priority);
            out.push(SP);
            crate::parse::push_bytes(out, exchange);
        },
        Rdata::Srv { priority, weight, port, target } => {
            push_dec(out, *priority);
            out.push(SP);
            push_dec(out, *weight);
            out.push(SP);
            push_dec(out, *port);
            out.push(SP);
            crate::parse::push_bytes(out, target);
        },
        Rdata::Txt { chunks } => {
            let mut j: usize = 0;
            while j < chunks.len()
                invariant
                    j <= chunks.len(),
                    out@ == pre + ser_chunks(chunks.deep_view(), j as int),
                    chunks.deep_view().len() == chunks@.len(),
                    forall|k: int|
                        0 <= k < chunks@.len() ==> chunks.deep_view()[k] == chunks@[k]@,
                decreases chunks.len() - j,
            {
                if j > 0 {
                    out.push(SP);
                }
                push_quoted(out, &chunks[j]);
                proof {
                    assert(out@ =~= pre + ser_chunks(chunks.deep_view(), j + 1));
                }
                j = j + 1;
            }
        },
        Rdata::Soa { mname, rname, serial, refresh, retry, expire, minimum } => {
            crate::parse::push_bytes(out, mname);
            out.push(SP);
            crate::parse::push_bytes(out, rname);
            out.push(SP);
            push_dec(out, *serial);
            out.push(SP);
            push_dec(out, *refresh);
            out.push(SP);
            push_dec(out, *retry);
            out.push(SP);
            push_dec(out, *expire);
            out.push(SP);
            push_dec(out, *minimum);
        },
    }
    proof {
        assert(out@ =~= pre + ser_rdata(rd.deep_view()));
    }
}

/// One record line: the owner (or a tab when the owner is carried over
/// from the previous line), the TTL, the class `IN`, the type, and the
/// rdata.
pub open spec fn ser_record(r: RecordView, show_owner: bool) -> Seq<u8> {
    (if show_owner {
        r.owner + seq![SP]
    } else {
        seq![HT]
    }) + spec_dec_digits(r.ttl as nat) + seq![SP, UC_I, UC_N, SP] + type_str(r.rtype) + seq![SP]
        + ser_rdata(r.rdata) + seq![NL]
}

fn push_record(out: &mut Vec<u8>, r: &ResourceRecord, show_owner: bool)
    ensures
        final(out)@ == old(out)@ + ser_record(r.deep_view(), show_owner),
{
    if show_owner {
        crate::parse::push_bytes(out, &r.owner);
        out.push(SP);
    } else {
        out.push(HT);
    }
    push_dec(out, r.ttl);
    out.push(SP);
    out.push(UC_I);
    out.push(UC_N);
    out.push(SP);
    push_type(out, r.rtype);
    out.push(SP);
    push_rdata(out, &r.rdata);
    out.push(NL);
    proof {
        assert(out@ =~= old(out)@ + ser_record(r.deep_view(), show_owner));
    }
}

/// The SOA records among the first `i`, in order.
pub open spec fn sel_soa(rs: Seq<RecordView>, i: int) -> Seq<RecordView>
    decreases i,
        when 0 <= i <= rs.len()
{
    if i <= 0 {
        Seq::empty()
    } else {
        sel_soa(rs, i - 1) + (if rs[i - 1].rtype == RrType::Soa {
            seq![rs[i - 1]]
        } else {
            Seq::empty()
        })
    }
}

/// The non-SOA records with the given owner among the first `i`, in
/// order.
pub open spec fn sel_owner(rs: Seq<RecordView>, own: Seq<u8>, i: int) -> Seq<RecordView>
    decreases i,
        when 0 <= i <= rs.len()
{
    if i <= 0 {
        Seq::empty()
    } else {
        sel_owner(rs, own, i - 1) + (if rs[i - 1].rtype != RrType::Soa && rs[i - 1].owner == own {
            seq![rs[i - 1]]
        } else {
            Seq::empty()
        })
    }
}

/// The distinct owner names of the non-SOA records among the first `i`,
/// in first-appearance order.
pub open spec fn owners_prefix(rs: Seq<RecordView>, i: int) -> Seq<Seq<u8>>
    decreases i,
        when 0 <= i <= rs.len()
{
    if i <= 0 {
        Seq::empty()
    } else {
        let prev = owners_prefix(rs, i - 1);
        if rs[i - 1].rtype == RrType::Soa || prev.contains(rs[i - 1].owner) {
            prev
        } else {
            prev.push(rs[i - 1].owner)
        }
    }
}

/// The first `t` owner groups, concatenated.
pub open spec fn groups_prefix(rs: Seq<RecordView>, ows: Seq<Seq<u8>>, t: int) -> Seq<RecordView>
    decreases t,
        when 0 <= t <= ows.len()
{
    if t <= 0 {
        Seq::empty()
    } else {
        groups_prefix(rs, ows, t - 1) + sel_owner(rs, ows[t - 1], rs.len() as int)
    }
}

/// The serializer's record order: SOA records first, then the others
/// grouped by owner in first-appearance order.
pub open spec fn ser_order(rs: Seq<RecordView>) -> Seq<RecordView> {
    let ows = owners_prefix(rs, rs.len() as int);
    sel_soa(rs, rs.len() as int) + groups_prefix(rs, ows, ows.len() as int)
}

/// The lines of the first `j` ordered records; a record repeats its
/// owner only at a group boundary.
pub open spec fn ser_lines_prefix(rs: Seq<RecordView>, j: int) -> Seq<u8>
    decreases j,
        when 0 <= j <= rs.len()
{
    if j <= 0 {
        Seq::empty()
    } else {
        ser_lines_prefix(rs, j - 1) + ser_record(
            rs[j - 1],
            j - 1 == 0 || rs[j - 2].owner != rs[j - 1].owner,
        )
    }
}

/// The `$ORIGIN ` prefix.
pub open spec fn origin_kw() -> Seq<u8> {
    seq![DOLLAR, UC_O, UC_R, UC_I, UC_G, UC_I, UC_N, SP]
}

/// What serializing a zone yields: the `$ORIGIN` line, then every
/// record on its own line in the serializer's order.
pub open spec fn spec_serialize(z: ZoneView) -> Seq<u8> {
    let ordered = ser_order(z.records);
    origin_kw() + z.origin + seq![NL] + ser_lines_prefix(ordered, ordered.len() as int)
}


fn copy_u16s(v: &Vec<u16>) -> (r: Vec<u16>)
    ensures
        r@ == v@,
{
    let mut out: Vec<u16> = Vec::new();
    let mut i: usize = 0;
    while i < v.len()
        invariant
            i <= v.len(),
            out.len() == i,
            forall|j: int| 0 <= j < i ==> out@[j] == v@[j],
        decreases v.len() - i,
    {
        out.push(v[i]);
        i = i + 1;
    }
    proof {
        assert(out@ =~= v@);
    }
    out
}

fn copy_chunks(v: &Vec<Vec<u8>>) -> (r: Vec<Vec<u8>>)
    ensures
        r.deep_view() == v.deep_view(),
{
    let mut out: Vec<Vec<u8>> = Vec::new();
    let mut i: usize = 0;
    while i < v.len()
        invariant
            i <= v.len(),
            out.len() == i,
            forall|j: int| 0 <= j < i ==> out.deep_view()[j] == v.deep_view()[j],
        decreases v.len() - i,
    {
        let ghost pre = out.deep_view();
        let c = crate::parse::copy_name(&v[i]);
        out.push(c);
        proof {
            assert(forall|j: int| 0 <= j < i ==> out.deep_view()[j] == pre[j]);
            assert(out.deep_view()[i as int] == v.deep_view()[i as int]);
        }
        i = i + 1;
    }
    proof {
        assert(out.deep_view() =~~= v.deep_view());
    }
    out
}

fn clone_rdata(rd: &Rdata) -> (r: Rdata)
    ensures
        r.deep_view() == rd.deep_view(),
{
    match rd {
        Rdata::A { o0, o1, o2, o3 } => Rdata::A { o0: *o0, o1: *o1, o2: *o2, o3: *o3 },
        Rdata::Aaaa { groups } => Rdata::Aaaa { groups: copy_u16s(groups) },
        Rdata::Caa { flag, tag, value } => Rdata::Caa {
            flag: *flag,
            tag: crate::parse::copy_name(tag),
            value: crate::parse::copy_name(value),
        },
        Rdata::Cname { target } => Rdata::Cname { target: crate::parse::copy_name(target) },
        Rdata::Ns { target } => Rdata::Ns { target: crate::parse::copy_name(target) },
        Rdata::Mx { priority, exchange } => Rdata::Mx {
            priority: *priority,
            exchange: crate::parse::copy_name(exchange),
        },
        Rdata::Srv { priority, weight, port, target } => Rdata::Srv {
            priority: *priority,
            weight: *weight,
            port: *port,
            target: crate::parse::copy_name(target),
        },
        Rdata::Txt { chunks } => Rdata::Txt { chunks: copy_chunks(chunks) },
        Rdata::Soa { mname, rname, serial, refresh, retry, expire, minimum } => Rdata::Soa {
            mname: crate::parse::copy_name(mname),
            rname: crate::parse::copy_name(rname),
            serial: *serial,
            refresh: *refresh,
            retry: *retry,
            expire: *expire,
            minimum: *minimum,
        },
    }
}

fn clone_record(r: &ResourceRecord) -> (r2: ResourceRecord)
    ensures
        r2.deep_view() == r.deep_view(),
{
    ResourceRecord {
        owner: crate::parse::copy_name(&r.owner),
        ttl: r.ttl,
        rtype: r.rtype,
        rdata: clone_rdata(&r.rdata),
    }
}

/// Serializes a zone into canonical zone-file text, exactly as
/// [`spec_serialize`] describes.
pub fn serialize(z: &Zone) -> (r: Vec<u8>)
    ensures
        r@ == spec_serialize(z.deep_view()),
{
    let recs = &z.records;
    let ghost drecs = recs.deep_view();
    proof {
        assert(drecs.len() == recs@.len());
        assert(forall|j: int| 0 <= j < recs@.len() ==> drecs[j] == recs@[j].deep_view());
    }
    let n = recs.len();
    let mut ordered: Vec<ResourceRecord> = Vec::new();
    // SOA records first.
    let mut i: usize = 0;
    proof {
        assert(ordered.deep_view() =~~= sel_soa(drecs, 0));
    }
    while i < n
        invariant
            i <= n,
            n == recs@.len(),
            drecs == recs.deep_view(),
            drecs.len() == recs@.len(),
            forall|j: int| 0 <= j < recs@.len() ==> drecs[j] == recs@[j].deep_view(),
            ordered.deep_view() == sel_soa(drecs, i as int),
        decreases n - i,
    {
        let soa: bool = match recs[i].rtype {
            RrType::Soa => true,
            _ => false,
        };
        if soa {
            let ghost pre = ordered.deep_view();
            let c = clone_record(&recs[i]);
            ordered.push(c);
            proof {
                assert(ordered.deep_view() =~~= pre.push(drecs[i as int]));
            }
        }
        proof {
            assert(ordered.deep_view() =~~= sel_soa(drecs, i + 1));
        }
        i = i + 1;
    }
    // Distinct owners of the non-SOA records, in first-appearance order.
    let mut ows: Vec<Vec<u8>> = Vec::new();
    let mut i2: usize = 0;
    proof {
        assert(ows.deep_view() =~~= owners_prefix(drecs, 0));
    }
    while i2 < n
        invariant
            i2 <= n,
            n == recs@.len(),
            drecs == recs.deep_view(),
            drecs.len() == recs@.len(),
            forall|j: int| 0 <= j < recs@.len() ==> drecs[j] == recs@[j].deep_view(),
            ordered.deep_view() == sel_soa(drecs, drecs.len() as int),
            ows.deep_view() == owners_prefix(drecs, i2 as int),
        decreases n - i2,
    {
        let soa: bool = match recs[i2].rtype {
            RrType::Soa => true,
            _ => false,
        };
        if !soa {
            let mut seen: bool = false;
            let mut k: usize = 0;
            while k < ows.len() && !seen
                invariant
                    k <= ows@.len(),
                    i2 < recs@.len(),
                    drecs == recs.deep_view(),
                    drecs.len() == recs@.len(),
                    forall|j: int| 0 <= j < recs@.len() ==> drecs[j] == recs@[j].deep_view(),
                    forall|j: int| 0 <= j < ows@.len() ==> ows.deep_view()[j] == ows@[j]@,
                    seen ==> ows.deep_view().contains(drecs[i2 as int].owner),
                    !seen ==> forall|j: int|
                        0 <= j < k ==> ows.deep_view()[j] != drecs[i2 as int].owner,
                decreases ows@.len() - k,
            {
                if crate::validate::bytes_eq(&ows[k], &recs[i2].owner) {
                    proof {
                        assert(ows.deep_view()[k as int] == drecs[i2 as int].owner);
                        assert(ows.deep_view().contains(drecs[i2 as int].owner));
                    }
                    seen = true;
                }
                k = k + 1;
            }
            if !seen {
                proof {
                    assert(forall|j: int|
                        0 <= j < ows.deep_view().len() ==> ows.deep_view()[j]
                            != drecs[i2 as int].owner);
                    assert(!ows.deep_view().contains(drecs[i2 as int].owner));
                }
                let ghost pre = ows.deep_view();
                let c = crate::parse::copy_name(&recs[i2].owner);
                ows.push(c);
                proof {
                    assert(ows.deep_view() =~~= pre.push(drecs[i2 as int].owner));
                }
            }
        }
        proof {
            assert(ows.deep_view() =~~= owners_prefix(drecs, i2 + 1));
        }
        i2 = i2 + 1;
    }
    let ghost dows = ows.deep_view();
    // Append each owner's group.
    let mut t: usize = 0;
    proof {
        assert(ordered.deep_view() =~~= sel_soa(drecs, drecs.len() as int) + groups_prefix(
            drecs,
            dows,
            0,
        ));
    }
    while t < ows.len()
        invariant
            t <= ows@.len(),
            n == recs@.len(),
            drecs == recs.deep_view(),
            dows == ows.deep_view(),
            drecs.len() == recs@.len(),
            dows.len() == ows@.len(),
            forall|j: int| 0 <= j < recs@.len() ==> drecs[j] == recs@[j].deep_view(),
            forall|j: int| 0 <= j < ows@.len() ==> dows[j] == ows@[j]@,
            ordered.deep_view() == sel_soa(drecs, drecs.len() as int) + groups_prefix(
                drecs,
                dows,
                t as int,
            ),
        decreases ows@.len() - t,
    {
        let mut i3: usize = 0;
        while i3 < n
            invariant
                i3 <= n,
                t < ows@.len(),
                n == recs@.len(),
                drecs == recs.deep_view(),
                dows == ows.deep_view(),
                drecs.len() == recs@.len(),
                dows.len() == ows@.len(),
                forall|j: int| 0 <= j < recs@.len() ==> drecs[j] == recs@[j].deep_view(),
                forall|j: int| 0 <= j < ows@.len() ==> dows[j] == ows@[j]@,
                ordered.deep_view() == sel_soa(drecs, drecs.len() as int) + groups_prefix(
                    drecs,
                    dows,
                    t as int,
                ) + sel_owner(drecs, dows[t as int], i3 as int),
            decreases n - i3,
        {
            let soa: bool = match recs[i3].rtype {
                RrType::Soa => true,
                _ => false,
            };
            if !soa && crate::validate::bytes_eq(&recs[i3].owner, &ows[t]) {
                let ghost pre = ordered.deep_view();
                let c = clone_record(&recs[i3]);
                ordered.push(c);
                proof {
                    assert(ordered.deep_view() =~~= pre.push(drecs[i3 as int]));
                }
            }
            proof {
                assert(ordered.deep_view() =~~= sel_soa(drecs, drecs.len() as int)
                    + groups_prefix(drecs, dows, t as int) + sel_owner(
                    drecs,
                    dows[t as int],
                    i3 + 1,
                ));
            }
            i3 = i3 + 1;
        }
        proof {
            assert(ordered.deep_view() =~~= sel_soa(drecs, drecs.len() as int) + groups_prefix(
                drecs,
                dows,
                t + 1,
            ));
        }
        t = t + 1;
    }
    proof {
        assert(ordered.deep_view() =~~= ser_order(drecs));
    }
    let ghost dord = ordered.deep_view();
    // Render.
    let mut out: Vec<u8> = Vec::new();
    out.push(DOLLAR);
    out.push(UC_O);
    out.push(UC_R);
    out.push(UC_I);
    out.push(UC_G);
    out.push(UC_I);
    out.push(UC_N);
    out.push(SP);
    crate::parse::push_bytes(&mut out, &z.origin);
    out.push(NL);
    let ghost head = origin_kw() + z.origin@ + seq![NL];
    proof {
        assert(out@ =~= head);
        assert(out@ =~= head + ser_lines_prefix(dord, 0));
    }
    let mut j: usize = 0;
    while j < ordered.len()
        invariant
            j <= ordered@.len(),
            dord == ordered.deep_view(),
            dord.len() == ordered@.len(),
            forall|k2: int| 0 <= k2 < ordered@.len() ==> dord[k2] == ordered@[k2].deep_view(),
            out@ == head + ser_lines_prefix(dord, j as int),
        decreases ordered@.len() - j,
    {
        let show: bool = if j == 0 {
            true
        } else {
            !crate::validate::bytes_eq(&ordered[j - 1].owner, &ordered[j].owner)
        };
        proof {
            assert(show == (j == 0 || dord[j as int - 1].owner != dord[j as int].owner));
        }
        push_record(&mut out, &ordered[j], show);
        proof {
            assert(out@ =~= head + ser_lines_prefix(dord, j + 1));
        }
        j = j + 1;
    }
    proof {
        assert(ser_order(z.deep_view().records) == ser_order(drecs));
        assert(out@ =~= spec_serialize(z.deep_view()));
    }
    out
}

} // verus!
