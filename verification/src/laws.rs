//! The library's stated laws: properties of the parser and the
//! validator proved once and for all, over the same spec functions
//! that the executable functions' contracts use.

use vstd::prelude::*;

verus! {

use crate::ascii::{ATSIGN, DOLLAR, DOT};
use crate::diag::{Diagnostic, DiagnosticCode, ParseError, ParseErrorKind, Severity};
use crate::lex::{LineView, TokenView};
use crate::model::{RdataView, RecordView};
use crate::model::absolute_name;
use crate::num::{is_digit, is_hex_digit, spec_dec_digits, spec_dec_of, spec_dec_val,
    spec_hex_char, spec_hex_digit_val, spec_hex_digits, spec_hex_of, spec_hex_val};
use crate::parse::{spec_line, spec_resolve, PState};
use crate::model::RrType;
use crate::serialize::{groups_prefix, owners_prefix, sel_owner, sel_soa, ser_order};
use crate::validate::{diags_prefix, err_diag, rdata_diags, record_diags, soa_count, soa_diag,
    spec_validate, spec_zone_valid};

/// Membership survives concatenation on either side.
proof fn lemma_concat_contains(a: Seq<Diagnostic>, b: Seq<Diagnostic>, x: Diagnostic)
    requires
        a.contains(x) || b.contains(x),
    ensures
        (a + b).contains(x),
{
    if a.contains(x) {
        let i = choose|i: int| 0 <= i < a.len() && a[i] == x;
        assert((a + b)[i] == x);
    } else {
        let i = choose|i: int| 0 <= i < b.len() && b[i] == x;
        assert((a + b)[a.len() + i] == x);
    }
}

/// Every diagnostic of record `i` appears among the diagnostics of the
/// first `j` records, for any `j` past `i`.
proof fn lemma_prefix_contains(recs: Seq<RecordView>, i: int, j: int, d: Diagnostic)
    requires
        0 <= i < j <= recs.len(),
        record_diags(recs, i).contains(d),
    ensures
        diags_prefix(recs, j).contains(d),
    decreases j,
{
    if j == i + 1 {
        lemma_concat_contains(diags_prefix(recs, i), record_diags(recs, i), d);
    } else {
        lemma_prefix_contains(recs, i, j - 1, d);
        lemma_concat_contains(diags_prefix(recs, j - 1), record_diags(recs, j - 1), d);
    }
}

/// A zone with zero error-level diagnostics is exactly a valid zone:
/// validation reports at most warnings for it. Validity is defined by
/// the validator's own output, so this law records that agreement.
pub proof fn lemma_valid_zone_has_no_errors(recs: Seq<RecordView>)
    requires
        spec_zone_valid(recs),
    ensures
        forall|k: int|
            0 <= k < spec_validate(recs).len() ==> (#[trigger] spec_validate(recs)[k]).severity
                != Severity::Error,
{
}

/// A record set holding two SOA records always yields an error-level
/// `InvalidSoaCount` diagnostic, and it is the first one reported.
pub proof fn lemma_two_soa_yields_invalid_soa_count(recs: Seq<RecordView>)
    requires
        soa_count(recs) == 2,
    ensures
        spec_validate(recs).len() >= 1,
        spec_validate(recs)[0].code == DiagnosticCode::InvalidSoaCount,
        spec_validate(recs)[0].severity == Severity::Error,
{
    assert(soa_diag(recs).len() == 1);
    assert(spec_validate(recs)[0] == soa_diag(recs)[0]);
}

/// An MX record whose priority exceeds 65535 always draws an
/// error-level `FieldRangeError` diagnostic at its own index.
pub proof fn lemma_mx_priority_out_of_range(
    recs: Seq<RecordView>,
    i: int,
    priority: u32,
    exchange: Seq<u8>,
)
    requires
        0 <= i < recs.len(),
        recs[i].rdata == (RdataView::Mx { priority, exchange }),
        priority > 65535,
    ensures
        spec_validate(recs).contains(err_diag(DiagnosticCode::FieldRangeError, i as usize)),
{
    let d = err_diag(DiagnosticCode::FieldRangeError, i as usize);
    assert(rdata_diags(recs[i].rdata, i as usize)[0] == d);
    assert(rdata_diags(recs[i].rdata, i as usize).contains(d));
    lemma_concat_contains(
        rdata_diags(recs[i].rdata, i as usize),
        record_diags(recs, i).skip(rdata_diags(recs[i].rdata, i as usize).len() as int),
        d,
    );
    assert(record_diags(recs, i) =~= rdata_diags(recs[i].rdata, i as usize) + record_diags(
        recs,
        i,
    ).skip(rdata_diags(recs[i].rdata, i as usize).len() as int));
    lemma_prefix_contains(recs, i, recs.len() as int, d);
    lemma_concat_contains(soa_diag(recs), diags_prefix(recs, recs.len() as int), d);
}

/// In a valid zone every MX priority fits its wire field: an
/// out-of-range priority would have drawn an error-level diagnostic.
pub proof fn lemma_valid_zone_mx_in_range(
    recs: Seq<RecordView>,
    i: int,
    priority: u32,
    exchange: Seq<u8>,
)
    requires
        0 <= i < recs.len(),
        recs[i].rdata == (RdataView::Mx { priority, exchange }),
        spec_zone_valid(recs),
    ensures
        priority <= 65535,
{
    if priority > 65535 {
        lemma_mx_priority_out_of_range(recs, i, priority, exchange);
        let d = err_diag(DiagnosticCode::FieldRangeError, i as usize);
        let k = choose|k: int|
            0 <= k < spec_validate(recs).len() && spec_validate(recs)[k] == d;
        assert(spec_validate(recs)[k].severity == Severity::Error);
        assert(false);
    }
}

/// A blank owner field before any owner has been set aborts the parse
/// of that line with `MissingOwner`.
pub proof fn lemma_blank_owner_without_previous(st: PState, lv: LineView)
    requires
        st.last_owner is None,
        lv.blank,
        lv.toks.len() >= 1,
        (match lv.toks[0] {
            TokenView::Word(w) => !(w.len() >= 1 && w[0] == DOLLAR),
            TokenView::Quoted(q) => true,
        }),
    ensures
        spec_line(st, lv) == Err::<(PState, Option<RecordView>), ParseError>(
            ParseError { kind: ParseErrorKind::MissingOwner, line: lv.line, offset: lv.offset },
        ),
{
}

/// A relative name resolves by appending the origin after a separating
/// dot; `@` denotes the origin itself and a dot-terminated name stays
/// as it is.
pub proof fn lemma_relative_resolution(w: Seq<u8>, origin: Seq<u8>)
    requires
        w.len() >= 1,
        w[w.len() - 1] != DOT,
        !(w.len() == 1 && w[0] == ATSIGN),
    ensures
        spec_resolve(w, Some(origin)) == Some(w + seq![DOT] + origin),
        spec_resolve(seq![ATSIGN], Some(origin)) == Some(origin),
{
}


/// Reading one more digit after a successfully parsed prefix extends
/// the value by that digit.
proof fn lemma_dec_val_push(s: Seq<u8>, i: int, acc: u32, d: u8, v: u32)
    requires
        0 <= i <= s.len(),
        spec_dec_val(s, i, acc) == Some(v),
        is_digit(d),
        v * 10 + (d - crate::ascii::D0) <= u32::MAX,
    ensures
        spec_dec_val(s.push(d), i, acc) == Some((v * 10 + (d - crate::ascii::D0)) as u32),
    decreases s.len() - i,
{
    if i >= s.len() {
        let na = (acc * 10 + (d - crate::ascii::D0)) as u32;
        assert(s.push(d)[i] == d);
        assert(spec_dec_val(s.push(d), i + 1, na) == Some(na));
    } else {
        assert(is_digit(s[i]) && acc * 10 + (s[i] - crate::ascii::D0) <= u32::MAX);
        lemma_dec_val_push(s, i + 1, (acc * 10 + (s[i] - crate::ascii::D0)) as u32, d, v);
        assert(s.push(d)[i] == s[i]);
    }
}

/// The decimal rendering of a number parses back to that number: the
/// numeric fields of a serialized record survive a round trip through
/// the parser.
pub proof fn lemma_dec_digits_roundtrip(n: u32)
    ensures
        spec_dec_of(spec_dec_digits(n as nat)) == Some(n),
    decreases n,
{
    if n <= 9 {
        assert(spec_dec_digits(n as nat) == seq![(crate::ascii::D0 + n) as u8]);
        assert(spec_dec_val(spec_dec_digits(n as nat), 1, n) == Some(n));
        assert(spec_dec_val(spec_dec_digits(n as nat), 0, 0) == Some(n));
    } else {
        lemma_dec_digits_roundtrip(n / 10);
        let prefix = spec_dec_digits((n / 10) as nat);
        let d = (crate::ascii::D0 + n % 10) as u8;
        assert(prefix.len() >= 1);
        lemma_dec_val_push(prefix, 0, 0, d, n / 10);
        assert((n / 10) * 10 + (d - crate::ascii::D0) == n);
        assert(spec_dec_digits(n as nat) == prefix.push(d));
    }
}

/// A hex digit byte carries the value it was made from.
proof fn lemma_hex_char_val(d: int)
    requires
        0 <= d < 16,
    ensures
        is_hex_digit(spec_hex_char(d)),
        spec_hex_digit_val(spec_hex_char(d)) == d,
{
}

/// How many digits the hex rendering of `n` has.
proof fn lemma_hex_digits_len(n: nat)
    ensures
        spec_hex_digits(n).len() >= 1,
        n < 16 ==> spec_hex_digits(n).len() == 1,
        n < 256 ==> spec_hex_digits(n).len() <= 2,
        n < 4096 ==> spec_hex_digits(n).len() <= 3,
        n < 65536 ==> spec_hex_digits(n).len() <= 4,
    decreases n,
{
    if n > 15 {
        lemma_hex_digits_len(n / 16);
    }
}

/// Reading one more hex digit after a successfully parsed prefix
/// extends the value by that digit.
proof fn lemma_hex_val_push(s: Seq<u8>, i: int, acc: u16, d: u8, v: u16)
    requires
        0 <= i <= s.len(),
        spec_hex_val(s, i, acc) == Some(v),
        is_hex_digit(d),
        v * 16 + spec_hex_digit_val(d) <= u16::MAX,
    ensures
        spec_hex_val(s.push(d), i, acc) == Some((v * 16 + spec_hex_digit_val(d)) as u16),
    decreases s.len() - i,
{
    if i >= s.len() {
        let na = (acc * 16 + spec_hex_digit_val(d)) as u16;
        assert(s.push(d)[i] == d);
        assert(spec_hex_val(s.push(d), i + 1, na) == Some(na));
    } else {
        assert(is_hex_digit(s[i]));
        lemma_hex_val_push(s, i + 1, (acc * 16 + spec_hex_digit_val(s[i])) as u16, d, v);
        assert(s.push(d)[i] == s[i]);
    }
}

/// The hex rendering of a 16-bit group parses back to that group: the
/// AAAA groups of a serialized record survive a round trip through the
/// parser.
pub proof fn lemma_hex_digits_roundtrip(g: u16)
    ensures
        spec_hex_of(spec_hex_digits(g as nat)) == Some(g),
    decreases g,
{
    lemma_hex_digits_len(g as nat);
    if g <= 15 {
        lemma_hex_char_val(g as int);
        assert(spec_hex_digits(g as nat) == seq![spec_hex_char(g as int)]);
        assert(spec_hex_val(spec_hex_digits(g as nat), 1, g) == Some(g));
        assert(spec_hex_val(spec_hex_digits(g as nat), 0, 0) == Some(g));
    } else {
        lemma_hex_digits_roundtrip(g / 16);
        lemma_hex_digits_len((g / 16) as nat);
        let prefix = spec_hex_digits((g / 16) as nat);
        let d = spec_hex_char((g % 16) as int);
        lemma_hex_char_val((g % 16) as int);
        lemma_hex_val_push(prefix, 0, 0, d, g / 16);
        assert((g / 16) * 16 + (g % 16) == g);
        assert(spec_hex_digits(g as nat) == prefix.push(d));
    }
}

/// A name stored in absolute form resolves to itself against any
/// origin: the names a serialized record shows parse back unchanged.
pub proof fn lemma_absolute_name_resolution(w: Seq<u8>, origin: Option<Seq<u8>>)
    requires
        absolute_name(w),
    ensures
        spec_resolve(w, origin) == Some(w),
{
    assert(w[w.len() - 1] == DOT);
    assert(!(w.len() == 1 && w[0] == ATSIGN));
}


/// A non-SOA record's owner appears in the owner list of any prefix
/// that covers it.
proof fn lemma_owners_contains(rs: Seq<RecordView>, i: int, j: int)
    requires
        0 <= i < j <= rs.len(),
        rs[i].rtype != RrType::Soa,
    ensures
        owners_prefix(rs, j).contains(rs[i].owner),
    decreases j,
{
    if j == i + 1 {
        let prev = owners_prefix(rs, i);
        if !prev.contains(rs[i].owner) {
            assert(owners_prefix(rs, j)[prev.len() as int] == rs[i].owner);
        }
    } else {
        lemma_owners_contains(rs, i, j - 1);
        let prev = owners_prefix(rs, j - 1);
        if owners_prefix(rs, j) != prev {
            let k = choose|k: int| 0 <= k < prev.len() && prev[k] == rs[i].owner;
            assert(owners_prefix(rs, j)[k] == rs[i].owner);
        }
    }
}


/// How often `x` occurs among the first `j` records.
spec fn occ(rs: Seq<RecordView>, x: RecordView, j: int) -> int
    decreases j,
        when 0 <= j <= rs.len()
{
    if j <= 0 {
        0
    } else {
        occ(rs, x, j - 1) + (if rs[j - 1] == x {
            1int
        } else {
            0int
        })
    }
}

/// The multiset of a singleton sequence counts its one element once.
proof fn lemma_singleton_count(r: RecordView, x: RecordView)
    ensures
        seq![r].to_multiset().count(x) == (if x == r {
            1int
        } else {
            0int
        }),
{
    broadcast use vstd::seq_lib::group_to_multiset_ensures;
    broadcast use vstd::multiset::group_multiset_axioms;

    let e = Seq::<RecordView>::empty();
    assert(seq![r] =~= e.push(r));
    assert(!e.contains(x));
    assert(e.to_multiset().count(x) == 0);
}

/// Counting distributes over concatenation.
proof fn lemma_concat_count(a: Seq<RecordView>, b: Seq<RecordView>, x: RecordView)
    ensures
        (a + b).to_multiset().count(x) == a.to_multiset().count(x) + b.to_multiset().count(x),
{
    broadcast use vstd::multiset::group_multiset_axioms;

    vstd::seq_lib::lemma_multiset_commutative(a, b);
}

/// A sequence's multiset counts an element as often as it occurs.
proof fn lemma_occ_count(rs: Seq<RecordView>, x: RecordView, j: int)
    requires
        0 <= j <= rs.len(),
    ensures
        rs.subrange(0, j).to_multiset().count(x) == occ(rs, x, j),
    decreases j,
{
    broadcast use vstd::seq_lib::group_to_multiset_ensures;
    broadcast use vstd::multiset::group_multiset_axioms;

    if j <= 0 {
        let e = rs.subrange(0, 0);
        assert(!e.contains(x));
    } else {
        lemma_occ_count(rs, x, j - 1);
        assert(rs.subrange(0, j) =~= rs.subrange(0, j - 1).push(rs[j - 1]));
    }
}

/// The SOA selection counts an SOA record as often as the zone does,
/// and holds nothing else.
proof fn lemma_sel_soa_count(rs: Seq<RecordView>, x: RecordView, j: int)
    requires
        0 <= j <= rs.len(),
    ensures
        sel_soa(rs, j).to_multiset().count(x) == (if x.rtype == RrType::Soa {
            occ(rs, x, j)
        } else {
            0int
        }),
    decreases j,
{
    broadcast use vstd::seq_lib::group_to_multiset_ensures;
    broadcast use vstd::multiset::group_multiset_axioms;

    if j <= 0 {
        assert(!sel_soa(rs, 0).contains(x));
    } else {
        lemma_sel_soa_count(rs, x, j - 1);
        let tail: Seq<RecordView> = if rs[j - 1].rtype == RrType::Soa {
            seq![rs[j - 1]]
        } else {
            Seq::empty()
        };
        lemma_concat_count(sel_soa(rs, j - 1), tail, x);
        if rs[j - 1].rtype == RrType::Soa {
            lemma_singleton_count(rs[j - 1], x);
        } else {
            assert(!tail.contains(x));
        }
    }
}

/// One owner's selection counts a record of that owner as often as the
/// zone does, and holds nothing else.
proof fn lemma_sel_owner_count(rs: Seq<RecordView>, own: Seq<u8>, x: RecordView, j: int)
    requires
        0 <= j <= rs.len(),
    ensures
        sel_owner(rs, own, j).to_multiset().count(x) == (if x.rtype != RrType::Soa && x.owner
            == own {
            occ(rs, x, j)
        } else {
            0int
        }),
    decreases j,
{
    broadcast use vstd::seq_lib::group_to_multiset_ensures;
    broadcast use vstd::multiset::group_multiset_axioms;

    if j <= 0 {
        assert(!sel_owner(rs, own, 0).contains(x));
    } else {
        lemma_sel_owner_count(rs, own, x, j - 1);
        let tail: Seq<RecordView> = if rs[j - 1].rtype != RrType::Soa && rs[j - 1].owner == own {
            seq![rs[j - 1]]
        } else {
            Seq::empty()
        };
        lemma_concat_count(sel_owner(rs, own, j - 1), tail, x);
        if rs[j - 1].rtype != RrType::Soa && rs[j - 1].owner == own {
            lemma_singleton_count(rs[j - 1], x);
        } else {
            assert(!tail.contains(x));
        }
    }
}

/// The owner list never repeats an owner.
proof fn lemma_owners_distinct(rs: Seq<RecordView>, i: int)
    requires
        0 <= i <= rs.len(),
    ensures
        forall|k1: int, k2: int|
            0 <= k1 < k2 < owners_prefix(rs, i).len() ==> owners_prefix(rs, i)[k1]
                != owners_prefix(rs, i)[k2],
    decreases i,
{
    if i > 0 {
        lemma_owners_distinct(rs, i - 1);
        let prev = owners_prefix(rs, i - 1);
        if owners_prefix(rs, i) != prev {
            assert(!prev.contains(rs[i - 1].owner));
            assert(forall|k: int| 0 <= k < prev.len() ==> prev[k] != rs[i - 1].owner);
        }
    }
}

/// The concatenated owner groups count a non-SOA record as often as
/// the zone does once its owner's group is included, and never before.
proof fn lemma_groups_count(rs: Seq<RecordView>, ows: Seq<Seq<u8>>, x: RecordView, t: int)
    requires
        0 <= t <= ows.len(),
        forall|k1: int, k2: int| 0 <= k1 < k2 < ows.len() ==> ows[k1] != ows[k2],
    ensures
        groups_prefix(rs, ows, t).to_multiset().count(x) == (if x.rtype != RrType::Soa && (
        exists|k: int| 0 <= k < t && ows[k] == x.owner) {
            occ(rs, x, rs.len() as int)
        } else {
            0int
        }),
    decreases t,
{
    broadcast use vstd::seq_lib::group_to_multiset_ensures;
    broadcast use vstd::multiset::group_multiset_axioms;

    if t <= 0 {
        assert(!groups_prefix(rs, ows, 0).contains(x));
    } else {
        lemma_groups_count(rs, ows, x, t - 1);
        lemma_concat_count(
            groups_prefix(rs, ows, t - 1),
            sel_owner(rs, ows[t - 1], rs.len() as int),
            x,
        );
        lemma_sel_owner_count(rs, ows[t - 1], x, rs.len() as int);
        if x.rtype != RrType::Soa && ows[t - 1] == x.owner {
            assert(forall|k: int| 0 <= k < t - 1 ==> ows[k] != x.owner);
            assert(exists|k: int| 0 <= k < t && ows[k] == x.owner) by {
                assert(ows[t - 1] == x.owner);
            }
        } else if x.rtype != RrType::Soa {
            if exists|k: int| 0 <= k < t && ows[k] == x.owner {
                let k = choose|k: int| 0 <= k < t && ows[k] == x.owner;
                assert(k != t - 1);
                assert(exists|k2: int| 0 <= k2 < t - 1 && ows[k2] == x.owner) by {
                    assert(0 <= k < t - 1 && ows[k] == x.owner);
                }
            }
        }
    }
}

/// A record that occurs among the first `j` has an index there.
proof fn lemma_occ_witness(rs: Seq<RecordView>, x: RecordView, j: int)
    requires
        0 <= j <= rs.len(),
        occ(rs, x, j) > 0,
    ensures
        exists|i: int| 0 <= i < j && rs[i] == x,
    decreases j,
{
    if rs[j - 1] == x {
    } else {
        lemma_occ_witness(rs, x, j - 1);
    }
}

/// The serializer's reordering is a permutation: the serialized order
/// holds exactly the zone's records, each as often as the zone does.
/// Together with the canonical single-line rendering this is the
/// record-level core of the serialize/parse round trip.
pub proof fn lemma_ser_order_permutes(rs: Seq<RecordView>)
    ensures
        ser_order(rs).to_multiset() == rs.to_multiset(),
{
    broadcast use vstd::seq_lib::group_to_multiset_ensures;
    broadcast use vstd::multiset::group_multiset_axioms;

    let n = rs.len() as int;
    let ows = owners_prefix(rs, n);
    lemma_owners_distinct(rs, n);
    assert forall|x: RecordView| ser_order(rs).to_multiset().count(x) == rs.to_multiset().count(
        x,
    ) by {
        lemma_concat_count(sel_soa(rs, n), groups_prefix(rs, ows, ows.len() as int), x);
        lemma_sel_soa_count(rs, x, n);
        lemma_groups_count(rs, ows, x, ows.len() as int);
        lemma_occ_count(rs, x, n);
        assert(rs.subrange(0, n) =~= rs);
        if x.rtype != RrType::Soa && occ(rs, x, n) > 0 {
            lemma_occ_witness(rs, x, n);
            let i = choose|i: int| 0 <= i < n && rs[i] == x;
            lemma_owners_contains(rs, i, n);
            let k = choose|k: int| 0 <= k < ows.len() && ows[k] == x.owner;
            assert(exists|k2: int| 0 <= k2 < ows.len() && ows[k2] == x.owner);
        }
    }
    assert(ser_order(rs).to_multiset() =~= rs.to_multiset());
}

} // verus!
