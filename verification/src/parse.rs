//! The directive and record parser: consumes the tokenizer's logical
//! lines, resolves `$ORIGIN` / `$TTL` directives, owner-name
//! inheritance and relative-name expansion, and produces the zone's
//! resource records in file order.
//!
//! AAAA rdata may be written in the full eight-group colon form or
//! with a single `::` standing for a run of zero groups.

use vstd::prelude::*;

verus! {

use crate::ascii::{ATSIGN, COLON, D0, DOLLAR, DOT, LC_A, LC_Z, UC_A, UC_C, UC_E, UC_G, UC_I, UC_L,
    UC_M, UC_N, UC_O, UC_R, UC_S, UC_T, UC_V, UC_X, UC_Z};
use crate::diag::{ParseError, ParseErrorKind};
use crate::lex::{spec_tokenize, tokenize, LineView, Token, TokenLine, TokenView};
use crate::model::{Rdata, RdataView, RecordView, ResourceRecord, RrType, Zone, ZoneView};
use crate::num::{dec_of, hex_of, is_digit, spec_dec_of, spec_hex_of};

/// The parser state carried across logical lines.
pub struct PState {
    pub origin: Option<Seq<u8>>,
    pub default_ttl: Option<u32>,
    pub last_owner: Option<Seq<u8>>,
}

/// The view of an optional name held as bytes.
pub open spec fn oview(o: Option<Vec<u8>>) -> Option<Seq<u8>> {
    match o {
        Some(v) => Some(v@),
        None => None,
    }
}

/// Executable twin of [`PState`].
pub struct ParserState {
    pub origin: Option<Vec<u8>>,
    pub default_ttl: Option<u32>,
    pub last_owner: Option<Vec<u8>>,
}

impl DeepView for ParserState {
    type V = PState;

    open spec fn deep_view(&self) -> PState {
        PState {
            origin: oview(self.origin),
            default_ttl: self.default_ttl,
            last_owner: oview(self.last_owner),
        }
    }
}

pub open spec fn spec_to_upper(b: u8) -> u8 {
    if LC_A <= b && b <= LC_Z {
        (b - 32) as u8
    } else {
        b
    }
}

/// The word with lower-case ASCII letters raised to upper case.
pub open spec fn spec_upper(s: Seq<u8>) -> Seq<u8> {
    Seq::new(s.len(), |i: int| spec_to_upper(s[i]))
}

fn upper_bytes(v: &Vec<u8>) -> (r: Vec<u8>)
    ensures
        r@ == spec_upper(v@),
{
    let mut out: Vec<u8> = Vec::new();
    let mut i: usize = 0;
    while i < v.len()
        invariant
            i <= v.len(),
            out.len() == i,
            forall|j: int| 0 <= j < i ==> out@[j] == spec_to_upper(v@[j]),
        decreases v.len() - i,
    {
        let b = v[i];
        if b >= LC_A && b <= LC_Z {
            out.push(b - 32);
        } else {
            out.push(b);
        }
        i = i + 1;
    }
    proof {
        assert(out@ =~= spec_upper(v@));
    }
    out
}

/// A fresh copy of a byte string.
pub fn copy_name(v: &Vec<u8>) -> (r: Vec<u8>)
    ensures
        r@ == v@,
{
    let mut out: Vec<u8> = Vec::new();
    let mut i: usize = 0;
    while i < v.len()
        invariant
            i <= v.len(),
            out.len() == i,
            forall|j: int| 0 <= j < i ==> out@[j] == v@[j],
        decreases v.len() - i,
    {
        out.push(v[i]);
        i = i + 1;
    }
    proof {
        assert(out@ =~= v@);
    }
    out
}

/// Appends a byte string to the output buffer.
pub fn push_bytes(out: &mut Vec<u8>, src: &Vec<u8>)
    ensures
        final(out)@ == old(out)@ + src@,
{
    let mut i: usize = 0;
    while i < src.len()
        invariant
            i <= src.len(),
            out@ == old(out)@ + src@.subrange(0, i as int),
        decreases src.len() - i,
    {
        out.push(src[i]);
        proof {
            assert(out@ =~= old(out)@ + src@.subrange(0, i + 1));
        }
        i = i + 1;
    }
    proof {
        assert(src@.subrange(0, src@.len() as int) =~= src@);
    }
}

/// `$ORIGIN`, upper-cased.
pub open spec fn is_kw_origin(s: Seq<u8>) -> bool {
    s.len() == 7 && s[0] == DOLLAR && s[1] == UC_O && s[2] == UC_R && s[3] == UC_I && s[4] == UC_G
        && s[5] == UC_I && s[6] == UC_N
}

/// `$TTL`, upper-cased.
pub open spec fn is_kw_ttl(s: Seq<u8>) -> bool {
    s.len() == 4 && s[0] == DOLLAR && s[1] == UC_T && s[2] == UC_T && s[3] == UC_L
}

/// The class keyword `IN`, upper-cased.
pub open spec fn is_kw_in(s: Seq<u8>) -> bool {
    s.len() == 2 && s[0] == UC_I && s[1] == UC_N
}

/// The record type an upper-cased word denotes, if any.
pub open spec fn spec_rrtype_of(s: Seq<u8>) -> Option<RrType> {
    if s.len() == 1 && s[0] == UC_A {
        Some(RrType::A)
    } else if s.len() == 4 && s[0] == UC_A && s[1] == UC_A && s[2] == UC_A && s[3] == UC_A {
        Some(RrType::Aaaa)
    } else if s.len() == 3 && s[0] == UC_C && s[1] == UC_A && s[2] == UC_A {
        Some(RrType::Caa)
    } else if s.len() == 5 && s[0] == UC_C && s[1] == UC_N && s[2] == UC_A && s[3] == UC_M && s[4]
        == UC_E {
        Some(RrType::Cname)
    } else if s.len() == 2 && s[0] == UC_M && s[1] == UC_X {
        Some(RrType::Mx)
    } else if s.len() == 2 && s[0] == UC_N && s[1] == UC_S {
        Some(RrType::Ns)
    } else if s.len() == 3 && s[0] == UC_S && s[1] == UC_R && s[2] == UC_V {
        Some(RrType::Srv)
    } else if s.len() == 3 && s[0] == UC_T && s[1] == UC_X && s[2] == UC_T {
        Some(RrType::Txt)
    } else if s.len() == 3 && s[0] == UC_S && s[1] == UC_O && s[2] == UC_A {
        Some(RrType::Soa)
    } else {
        None
    }
}

fn rrtype_of(u: &Vec<u8>) -> (r: Option<RrType>)
    ensures
        r == spec_rrtype_of(u@),
{
    let n = u.len();
    if n == 1 && u[0] == UC_A {
        Some(RrType::A)
    } else if n == 4 && u[0] == UC_A && u[1] == UC_A && u[2] == UC_A && u[3] == UC_A {
        Some(RrType::Aaaa)
    } else if n == 3 && u[0] == UC_C && u[1] == UC_A && u[2] == UC_A {
        Some(RrType::Caa)
    } else if n == 5 && u[0] == UC_C && u[1] == UC_N && u[2] == UC_A && u[3] == UC_M && u[4]
        == UC_E {
        Some(RrType::Cname)
    } else if n == 2 && u[0] == UC_M && u[1] == UC_X {
        Some(RrType::Mx)
    } else if n == 2 && u[0] == UC_N && u[1] == UC_S {
        Some(RrType::Ns)
    } else if n == 3 && u[0] == UC_S && u[1] == UC_R && u[2] == UC_V {
        Some(RrType::Srv)
    } else if n == 3 && u[0] == UC_T && u[1] == UC_X && u[2] == UC_T {
        Some(RrType::Txt)
    } else if n == 3 && u[0] == UC_S && u[1] == UC_O && u[2] == UC_A {
        Some(RrType::Soa)
    } else {
        None
    }
}

/// Resolves a name word against the current origin: `@` denotes the
/// origin itself, a dot-terminated name is already absolute, and any
/// other name gets the origin appended. `None` when the origin would be
/// needed but none is set.
pub open spec fn spec_resolve(w: Seq<u8>, origin: Option<Seq<u8>>) -> Option<Seq<u8>> {
    if w.len() == 1 && w[0] == ATSIGN {
        origin
    } else if w.len() >= 1 && w[w.len() - 1] == DOT {
        Some(w)
    } else {
        match origin {
            Some(o) => Some(w + seq![DOT] + o),
            None => None,
        }
    }
}

fn resolve(w: &Vec<u8>, origin: &Option<Vec<u8>>) -> (r: Option<Vec<u8>>)
    ensures
        match r {
            Some(v) => spec_resolve(w@, oview(*origin)) == Some(v@),
            None => spec_resolve(w@, oview(*origin)) is None,
        },
{
    if w.len() == 1 && w[0] == ATSIGN {
        match origin {
            Some(o) => Some(copy_name(o)),
            None => None,
        }
    } else if w.len() >= 1 && w[w.len() - 1] == DOT {
        Some(copy_name(w))
    } else {
        match origin {
            Some(o) => {
                let mut v = copy_name(w);
                v.push(DOT);
                push_bytes(&mut v, o);
                proof {
                    assert(v@ =~= w@ + seq![DOT] + o@);
                }
                Some(v)
            },
            None => None,
        }
    }
}

/// Reads a dotted-quad part: one to three decimal digits valued at most
/// 255, returning the value and the position after the digits.
pub open spec fn ipv4_num(s: Seq<u8>, i: int, acc: int, ndig: int) -> Option<(int, int)>
    decreases s.len() - i,
        when 0 <= i <= s.len() && s.len() <= usize::MAX
{
    if i >= s.len() || !is_digit(s[i]) {
        if 1 <= ndig && acc <= 255 {
            Some((acc, i))
        } else {
            None
        }
    } else if ndig >= 3 {
        None
    } else {
        ipv4_num(s, i + 1, acc * 10 + (s[i] - D0), ndig + 1)
    }
}

fn ipv4_num_exec(s: &Vec<u8>, i: usize, acc: u32, ndig: u8) -> (r: Option<(u8, usize)>)
    requires
        i <= s.len(),
        ndig <= 3,
        ndig == 0 ==> acc == 0,
        ndig <= 1 ==> acc <= 9,
        ndig <= 2 ==> acc <= 99,
        acc <= 999,
    ensures
        match r {
            Some((v, j)) => ipv4_num(s@, i as int, acc as int, ndig as int) == Some(
                (v as int, j as int),
            ),
            None => ipv4_num(s@, i as int, acc as int, ndig as int) is None,
        },
    decreases s.len() - i,
{
    if i >= s.len() || s[i] < D0 || s[i] > crate::ascii::D9 {
        if 1 <= ndig && acc <= 255 {
            Some(((acc as u8), i))
        } else {
            None
        }
    } else if ndig >= 3 {
        None
    } else {
        ipv4_num_exec(s, i + 1, acc * 10 + ((s[i] - D0) as u32), ndig + 1)
    }
}

/// A dotted-quad IPv4 address: four parts separated by dots, nothing
/// else.
pub open spec fn spec_parse_ipv4(s: Seq<u8>) -> Option<(u8, u8, u8, u8)> {
    match ipv4_num(s, 0, 0, 0) {
        None => None,
        Some((a, i1)) => if i1 < s.len() && s[i1] == DOT {
            match ipv4_num(s, i1 + 1, 0, 0) {
                None => None,
                Some((b, i2)) => if i2 < s.len() && s[i2] == DOT {
                    match ipv4_num(s, i2 + 1, 0, 0) {
                        None => None,
                        Some((c, i3)) => if i3 < s.len() && s[i3] == DOT {
                            match ipv4_num(s, i3 + 1, 0, 0) {
                                None => None,
                                Some((d, i4)) => if i4 == s.len() {
                                    Some((a as u8, b as u8, c as u8, d as u8))
                                } else {
                                    None
                                },
                            }
                        } else {
                            None
                        },
                    }
                } else {
                    None
                },
            }
        } else {
            None
        },
    }
}

fn parse_ipv4(s: &Vec<u8>) -> (r: Option<(u8, u8, u8, u8)>)
    ensures
        r == spec_parse_ipv4(s@),
{
    match ipv4_num_exec(s, 0, 0, 0) {
        None => None,
        Some((a, i1)) => {
            if i1 < s.len() && s[i1] == DOT {
                match ipv4_num_exec(s, i1 + 1, 0, 0) {
                    None => None,
                    Some((b, i2)) => {
                        if i2 < s.len() && s[i2] == DOT {
                            match ipv4_num_exec(s, i2 + 1, 0, 0) {
                                None => None,
                                Some((c, i3)) => {
                                    if i3 < s.len() && s[i3] == DOT {
                                        match ipv4_num_exec(s, i3 + 1, 0, 0) {
                                            None => None,
                                            Some((d, i4)) => {
                                                if i4 == s.len() {
                                                    Some((a, b, c, d))
                                                } else {
                                                    None
                                                }
                                            },
                                        }
                                    } else {
                                        None
                                    }
                                },
                            }
                        } else {
                            None
                        }
                    },
                }
            } else {
                None
            }
        },
    }
}

/// Splits a word at colons; empty segments are kept.
pub open spec fn split_colon(s: Seq<u8>, i: int, cur: Seq<u8>, acc: Seq<Seq<u8>>) -> Seq<Seq<u8>>
    decreases s.len() - i,
        when 0 <= i <= s.len() && s.len() <= usize::MAX
{
    if i >= s.len() {
        acc.push(cur)
    } else if s[i] == COLON {
        split_colon(s, i + 1, Seq::empty(), acc.push(cur))
    } else {
        split_colon(s, i + 1, cur.push(s[i]), acc)
    }
}

/// Parses the segments from `i` up to `j` as 1-to-4-digit hex groups.
pub open spec fn seg_vals(segs: Seq<Seq<u8>>, i: int, j: int) -> Option<Seq<u16>>
    decreases j - i,
        when 0 <= i
{
    if i >= j {
        Some(Seq::empty())
    } else {
        match spec_hex_of(segs[i]) {
            None => None,
            Some(g) => match seg_vals(segs, i + 1, j) {
                None => None,
                Some(rest) => Some(seq![g] + rest),
            },
        }
    }
}

/// `k` zero groups.
pub open spec fn zero_groups(k: int) -> Seq<u16> {
    Seq::new(k as nat, |i: int| 0u16)
}

/// The index of the first empty segment, if any.
pub open spec fn first_empty(segs: Seq<Seq<u8>>, i: int) -> Option<int>
    decreases segs.len() - i,
        when 0 <= i
{
    if i >= segs.len() {
        None
    } else if segs[i].len() == 0 {
        Some(i)
    } else {
        first_empty(segs, i + 1)
    }
}

/// An IPv6 address: eight colon-separated hex groups, with at most one
/// `::` standing for a run of zero groups.
pub open spec fn spec_parse_ipv6(s: Seq<u8>) -> Option<Seq<u16>> {
    let segs = split_colon(s, 0, Seq::empty(), Seq::empty());
    let n = segs.len() as int;
    if n == 3 && segs[0].len() == 0 && segs[1].len() == 0 && segs[2].len() == 0 {
        Some(zero_groups(8))
    } else if n >= 3 && segs[0].len() == 0 && segs[1].len() == 0 && (forall|k: int|
        2 <= k < n ==> segs[k].len() > 0) && n - 2 <= 7 {
        match seg_vals(segs, 2, n) {
            Some(g) => Some(zero_groups(8 - (n - 2)) + g),
            None => None,
        }
    } else if n >= 3 && segs[n - 1].len() == 0 && segs[n - 2].len() == 0 && (forall|k: int|
        0 <= k < n - 2 ==> segs[k].len() > 0) && n - 2 <= 7 {
        match seg_vals(segs, 0, n - 2) {
            Some(g) => Some(g + zero_groups(8 - (n - 2))),
            None => None,
        }
    } else if n == 8 && (forall|k: int| 0 <= k < 8 ==> segs[k].len() > 0) {
        seg_vals(segs, 0, 8)
    } else {
        match first_empty(segs, 0) {
            Some(k) => if 1 <= k <= n - 2 && (forall|k2: int|
                0 <= k2 < n && k2 != k ==> segs[k2].len() > 0) && n - 1 <= 7 {
                match (seg_vals(segs, 0, k), seg_vals(segs, k + 1, n)) {
                    (Some(g1), Some(g2)) => Some(g1 + zero_groups(8 - (n - 1)) + g2),
                    _ => None,
                }
            } else {
                None
            },
            None => None,
        }
    }
}

fn split_colon_exec(s: &Vec<u8>) -> (r: Vec<Vec<u8>>)
    ensures
        r.deep_view() == split_colon(s@, 0, Seq::empty(), Seq::empty()),
{
    let mut i: usize = 0;
    let mut cur: Vec<u8> = Vec::new();
    let mut acc: Vec<Vec<u8>> = Vec::new();
    proof {
        assert(cur@ =~= Seq::<u8>::empty());
        assert(acc.deep_view() =~= Seq::<Seq<u8>>::empty());
    }
    while i < s.len()
        invariant
            i <= s.len(),
            split_colon(s@, i as int, cur@, acc.deep_view()) == split_colon(
                s@,
                0,
                Seq::empty(),
                Seq::empty(),
            ),
        decreases s.len() - i,
    {
        let b = s[i];
        if b == COLON {
            let ghost pre_acc = acc.deep_view();
            let ghost pre_cur = cur@;
            acc.push(cur);
            cur = Vec::new();
            proof {
                assert(acc.deep_view() =~~= pre_acc.push(pre_cur));
                assert(cur@ =~= Seq::<u8>::empty());
            }
        } else {
            cur.push(b);
        }
        i = i + 1;
    }
    let ghost pre_acc = acc.deep_view();
    let ghost pre_cur = cur@;
    acc.push(cur);
    proof {
        assert(acc.deep_view() =~~= pre_acc.push(pre_cur));
    }
    acc
}

fn seg_vals_exec(segs: &Vec<Vec<u8>>, i: usize, j: usize) -> (r: Option<Vec<u16>>)
    requires
        i <= j,
        j <= segs.len(),
    ensures
        match r {
            Some(v) => seg_vals(segs.deep_view(), i as int, j as int) == Some(v@),
            None => seg_vals(segs.deep_view(), i as int, j as int) is None,
        },
    decreases j - i,
{
    if i >= j {
        let v: Vec<u16> = Vec::new();
        proof {
            assert(v@ =~= Seq::<u16>::empty());
        }
        Some(v)
    } else {
        match hex_of(&segs[i]) {
            None => {
                proof {
                    assert(segs.deep_view()[i as int] == segs@[i as int]@);
                }
                None
            },
            Some(g) => {
                match seg_vals_exec(segs, i + 1, j) {
                    None => None,
                    Some(rest) => {
                        let mut v: Vec<u16> = Vec::new();
                        v.push(g);
                        let mut k: usize = 0;
                        while k < rest.len()
                            invariant
                                k <= rest.len(),
                                v@ == seq![g] + rest@.subrange(0, k as int),
                            decreases rest.len() - k,
                        {
                            v.push(rest[k]);
                            proof {
                                assert(v@ =~= seq![g] + rest@.subrange(0, k + 1));
                            }
                            k = k + 1;
                        }
                        proof {
                            assert(segs.deep_view()[i as int] == segs@[i as int]@);
                            assert(rest@.subrange(0, rest@.len() as int) =~= rest@);
                            assert(v@ =~= seq![g] + rest@);
                        }
                        Some(v)
                    },
                }
            },
        }
    }
}

fn push_zero_groups(out: &mut Vec<u16>, k: usize)
    ensures
        final(out)@ == old(out)@ + zero_groups(k as int),
{
    let mut i: usize = 0;
    proof {
        assert(out@ =~= old(out)@ + zero_groups(0));
    }
    while i < k
        invariant
            i <= k,
            out@ == old(out)@ + zero_groups(i as int),
        decreases k - i,
    {
        out.push(0);
        proof {
            assert(out@ =~= old(out)@ + zero_groups(i + 1));
        }
        i = i + 1;
    }
}

fn push_u16s(out: &mut Vec<u16>, src: &Vec<u16>)
    ensures
        final(out)@ == old(out)@ + src@,
{
    let mut i: usize = 0;
    while i < src.len()
        invariant
            i <= src.len(),
            out@ == old(out)@ + src@.subrange(0, i as int),
        decreases src.len() - i,
    {
        out.push(src[i]);
        proof {
            assert(out@ =~= old(out)@ + src@.subrange(0, i + 1));
        }
        i = i + 1;
    }
    proof {
        assert(src@.subrange(0, src@.len() as int) =~= src@);
    }
}

fn all_nonempty(segs: &Vec<Vec<u8>>, i: usize, j: usize) -> (r: bool)
    requires
        i <= j,
        j <= segs.len(),
    ensures
        r == (forall|k: int| i <= k < j ==> segs.deep_view()[k].len() > 0),
{
    let mut k: usize = i;
    while k < j
        invariant
            i <= k <= j,
            j <= segs@.len(),
            forall|k2: int| i <= k2 < k ==> segs.deep_view()[k2].len() > 0,
        decreases j - k,
    {
        if segs[k].len() == 0 {
            proof {
                assert(segs.deep_view()[k as int].len() == 0);
            }
            return false;
        }
        proof {
            assert(segs.deep_view()[k as int] == segs@[k as int]@);
        }
        k = k + 1;
    }
    true
}

fn first_empty_exec(segs: &Vec<Vec<u8>>, i: usize) -> (r: Option<usize>)
    requires
        i <= segs.len(),
    ensures
        match r {
            Some(k) => first_empty(segs.deep_view(), i as int) == Some(k as int) && i <= k
                < segs.len(),
            None => first_empty(segs.deep_view(), i as int) is None,
        },
    decreases segs.len() - i,
{
    if i >= segs.len() {
        None
    } else if segs[i].len() == 0 {
        proof {
            assert(segs.deep_view()[i as int].len() == 0);
        }
        Some(i)
    } else {
        proof {
            assert(segs.deep_view()[i as int] == segs@[i as int]@);
        }
        first_empty_exec(segs, i + 1)
    }
}

fn parse_ipv6(s: &Vec<u8>) -> (r: Option<Vec<u16>>)
    ensures
        match r {
            Some(v) => spec_parse_ipv6(s@) == Some(v@),
            None => spec_parse_ipv6(s@) is None,
        },
{
    let segs = split_colon_exec(s);
    let n = segs.len();
    proof {
        assert(segs.deep_view().len() == segs@.len());
        assert(forall|k: int| 0 <= k < segs@.len() ==> segs.deep_view()[k] == segs@[k]@);
    }
    if n == 3 && segs[0].len() == 0 && segs[1].len() == 0 && segs[2].len() == 0 {
        let mut v: Vec<u16> = Vec::new();
        push_zero_groups(&mut v, 8);
        proof {
            assert(v@ =~= zero_groups(8));
        }
        Some(v)
    } else if n >= 3 && segs[0].len() == 0 && segs[1].len() == 0 && all_nonempty(&segs, 2, n) && n
        - 2 <= 7 {
        match seg_vals_exec(&segs, 2, n) {
            Some(g) => {
                let mut v: Vec<u16> = Vec::new();
                push_zero_groups(&mut v, 8 - (n - 2));
                push_u16s(&mut v, &g);
                proof {
                    assert(v@ =~= zero_groups(8 - (n - 2) as int) + g@);
                }
                Some(v)
            },
            None => None,
        }
    } else if n >= 3 && segs[n - 1].len() == 0 && segs[n - 2].len() == 0 && all_nonempty(
        &segs,
        0,
        n - 2,
    ) && n - 2 <= 7 {
        match seg_vals_exec(&segs, 0, n - 2) {
            Some(g) => {
                let mut v: Vec<u16> = Vec::new();
                push_u16s(&mut v, &g);
                push_zero_groups(&mut v, 8 - (n - 2));
                proof {
                    assert(v@ =~= g@ + zero_groups(8 - (n - 2) as int));
                }
                Some(v)
            },
            None => None,
        }
    } else if n == 8 && all_nonempty(&segs, 0, 8) {
        seg_vals_exec(&segs, 0, 8)
    } else {
        match first_empty_exec(&segs, 0) {
            Some(k) => {
                let sole: bool = if 1 <= k && k + 1 < n {
                    all_nonempty(&segs, 0, k) && all_nonempty(&segs, k + 1, n)
                } else {
                    false
                };
                proof {
                    if 1 <= k && k + 1 < n && sole {
                        assert(forall|k2: int|
                            0 <= k2 < n && k2 != k ==> segs.deep_view()[k2].len() > 0);
                    }
                }
                if sole && n - 1 <= 7 {
                    match (seg_vals_exec(&segs, 0, k), seg_vals_exec(&segs, k + 1, n)) {
                        (Some(g1), Some(g2)) => {
                            let mut v: Vec<u16> = Vec::new();
                            push_u16s(&mut v, &g1);
                            push_zero_groups(&mut v, 8 - (n - 1));
                            push_u16s(&mut v, &g2);
                            proof {
                                assert(v@ =~= g1@ + zero_groups(8 - (n - 1) as int) + g2@);
                            }
                            Some(v)
                        },
                        _ => None,
                    }
                } else {
                    None
                }
            },
            None => None,
        }
    }
}

/// The TXT chunks of the tokens from `k` on: each word or quoted string
/// is one character-string.
pub open spec fn txt_chunks(toks: Seq<TokenView>, k: int) -> Seq<Seq<u8>>
    decreases toks.len() - k,
        when 0 <= k
{
    if k >= toks.len() {
        Seq::empty()
    } else {
        match toks[k] {
            TokenView::Word(w) => seq![w] + txt_chunks(toks, k + 1),
            TokenView::Quoted(q) => seq![q] + txt_chunks(toks, k + 1),
        }
    }
}

fn txt_chunks_exec(toks: &Vec<Token>, k: usize) -> (r: Vec<Vec<u8>>)
    requires
        k <= toks.len(),
    ensures
        r.deep_view() == txt_chunks(toks.deep_view(), k as int),
    decreases toks.len() - k,
{
    if k >= toks.len() {
        let v: Vec<Vec<u8>> = Vec::new();
        proof {
            assert(v.deep_view() =~= Seq::<Seq<u8>>::empty());
        }
        v
    } else {
        let head: Vec<u8> = match &toks[k] {
            Token::Word(w) => copy_name(w),
            Token::Quoted(q) => copy_name(q),
        };
        let rest = txt_chunks_exec(toks, k + 1);
        let mut v: Vec<Vec<u8>> = Vec::new();
        let ghost hv = head@;
        v.push(head);
        let mut j: usize = 0;
        proof {
            assert(rest.deep_view().subrange(0, 0) =~= Seq::<Seq<u8>>::empty());
            assert(v.deep_view() =~~= seq![hv] + rest.deep_view().subrange(0, 0));
        }
        while j < rest.len()
            invariant
                j <= rest.len(),
                v.deep_view() == seq![hv] + rest.deep_view().subrange(0, j as int),
        decreases rest.len() - j,
        {
            let ghost pre = v.deep_view();
            let ghost el = rest[j as int].deep_view();
            let c = copy_name(&rest[j]);
            v.push(c);
            proof {
                assert(v.deep_view() =~~= pre.push(el));
                assert(v.deep_view() =~~= seq![hv] + rest.deep_view().subrange(0, j + 1));
            }
            j = j + 1;
        }
        proof {
            assert(rest.deep_view().subrange(0, rest@.len() as int) =~~= rest.deep_view());
            assert(v.deep_view() =~~= seq![hv] + rest.deep_view());
        }
        v
    }
}


/// A malformed-rdata error at the given location.
pub open spec fn mal_rdata(eline: usize, eoff: usize) -> ParseError {
    ParseError { kind: ParseErrorKind::MalformedRdata, line: eline, offset: eoff }
}

/// A missing-origin error at the given location.
pub open spec fn no_origin(eline: usize, eoff: usize) -> ParseError {
    ParseError { kind: ParseErrorKind::MissingOrigin, line: eline, offset: eoff }
}

/// What the rdata tokens of a record of type `rt` denote, reading the
/// line's tokens from position `k` on.
pub open spec fn spec_rdata(
    rt: RrType,
    toks: Seq<TokenView>,
    k: int,
    origin: Option<Seq<u8>>,
    eline: usize,
    eoff: usize,
) -> Result<RdataView, ParseError> {
    let n = toks.len() as int;
    match rt {
        RrType::A => if n - k == 1 {
            match toks[k] {
                TokenView::Word(w) => match spec_parse_ipv4(w) {
                    Some((a, b, c, d)) => Ok(RdataView::A { o0: a, o1: b, o2: c, o3: d }),
                    None => Err(mal_rdata(eline, eoff)),
                },
                TokenView::Quoted(q) => Err(mal_rdata(eline, eoff)),
            }
        } else {
            Err(mal_rdata(eline, eoff))
        },
        RrType::Aaaa => if n - k == 1 {
            match toks[k] {
                TokenView::Word(w) => match spec_parse_ipv6(w) {
                    Some(g) => Ok(RdataView::Aaaa { groups: g }),
                    None => Err(mal_rdata(eline, eoff)),
                },
                TokenView::Quoted(q) => Err(mal_rdata(eline, eoff)),
            }
        } else {
            Err(mal_rdata(eline, eoff))
        },
        RrType::Cname => if n - k == 1 {
            match toks[k] {
                TokenView::Word(w) => match spec_resolve(w, origin) {
                    Some(t) => Ok(RdataView::Cname { target: t }),
                    None => Err(no_origin(eline, eoff)),
                },
                TokenView::Quoted(q) => Err(mal_rdata(eline, eoff)),
            }
        } else {
            Err(mal_rdata(eline, eoff))
        },
        RrType::Ns => if n - k == 1 {
            match toks[k] {
                TokenView::Word(w) => match spec_resolve(w, origin) {
                    Some(t) => Ok(RdataView::Ns { target: t }),
                    None => Err(no_origin(eline, eoff)),
                },
                TokenView::Quoted(q) => Err(mal_rdata(eline, eoff)),
            }
        } else {
            Err(mal_rdata(eline, eoff))
        },
        RrType::Mx => if n - k == 2 {
            match (toks[k], toks[k + 1]) {
                (TokenView::Word(w0), TokenView::Word(w1)) => match spec_dec_of(w0) {
                    Some(p) => match spec_resolve(w1, origin) {
                        Some(x) => Ok(RdataView::Mx { priority: p, exchange: x }),
                        None => Err(no_origin(eline, eoff)),
                    },
                    None => Err(mal_rdata(eline, eoff)),
                },
                _ => Err(mal_rdata(eline, eoff)),
            }
        } else {
            Err(mal_rdata(eline, eoff))
        },
        RrType::Srv => if n - k == 4 {
            match (toks[k], toks[k + 1], toks[k + 2], toks[k + 3]) {
                (
                    TokenView::Word(w0),
                    TokenView::Word(w1),
                    TokenView::Word(w2),
                    TokenView::Word(w3),
                ) => match (spec_dec_of(w0), spec_dec_of(w1), spec_dec_of(w2)) {
                    (Some(p), Some(wt), Some(pt)) => match spec_resolve(w3, origin) {
                        Some(t) => Ok(
                            RdataView::Srv { priority: p, weight: wt, port: pt, target: t },
                        ),
                        None => Err(no_origin(eline, eoff)),
                    },
                    _ => Err(mal_rdata(eline, eoff)),
                },
                _ => Err(mal_rdata(eline, eoff)),
            }
        } else {
            Err(mal_rdata(eline, eoff))
        },
        RrType::Caa => if n - k == 3 {
            match (toks[k], toks[k + 1]) {
                (TokenView::Word(w0), TokenView::Word(w1)) => match spec_dec_of(w0) {
                    Some(f) => {
                        let value = match toks[k + 2] {
                            TokenView::Word(w2) => w2,
                            TokenView::Quoted(q2) => q2,
                        };
                        Ok(RdataView::Caa { flag: f, tag: w1, value })
                    },
                    None => Err(mal_rdata(eline, eoff)),
                },
                _ => Err(mal_rdata(eline, eoff)),
            }
        } else {
            Err(mal_rdata(eline, eoff))
        },
        RrType::Txt => if n - k >= 1 {
            Ok(RdataView::Txt { chunks: txt_chunks(toks, k) })
        } else {
            Err(mal_rdata(eline, eoff))
        },
        RrType::Soa => if n - k == 7 {
            match (toks[k], toks[k + 1]) {
                (TokenView::Word(wm), TokenView::Word(wr)) => match (
                    spec_resolve(wm, origin),
                    spec_resolve(wr, origin),
                ) {
                    (Some(m), Some(r)) => {
                        match (toks[k + 2], toks[k + 3], toks[k + 4], toks[k + 5], toks[k + 6]) {
                            (
                                TokenView::Word(w2),
                                TokenView::Word(w3),
                                TokenView::Word(w4),
                                TokenView::Word(w5),
                                TokenView::Word(w6),
                            ) => match (
                                spec_dec_of(w2),
                                spec_dec_of(w3),
                                spec_dec_of(w4),
                                spec_dec_of(w5),
                                spec_dec_of(w6),
                            ) {
                                (Some(serial), Some(refresh), Some(retry), Some(expire), Some(
                                    minimum,
                                )) => Ok(
                                    RdataView::Soa {
                                        mname: m,
                                        rname: r,
                                        serial,
                                        refresh,
                                        retry,
                                        expire,
                                        minimum,
                                    },
                                ),
                                _ => Err(mal_rdata(eline, eoff)),
                            },
                            _ => Err(mal_rdata(eline, eoff)),
                        }
                    },
                    _ => Err(no_origin(eline, eoff)),
                },
                _ => Err(mal_rdata(eline, eoff)),
            }
        } else {
            Err(mal_rdata(eline, eoff))
        },
    }
}


fn rdata_of(
    rt: RrType,
    toks: &Vec<Token>,
    k: usize,
    origin: &Option<Vec<u8>>,
    eline: usize,
    eoff: usize,
) -> (r: Result<Rdata, ParseError>)
    requires
        k <= toks.len(),
    ensures
        match r {
            Ok(d) => spec_rdata(rt, toks.deep_view(), k as int, oview(*origin), eline, eoff)
                == Ok::<RdataView, ParseError>(d.deep_view()),
            Err(e) => spec_rdata(rt, toks.deep_view(), k as int, oview(*origin), eline, eoff)
                == Err::<RdataView, ParseError>(e),
        },
{
    proof {
        assert(forall|j: int|
            0 <= j < toks@.len() ==> toks.deep_view()[j] == toks@[j].deep_view());
    }
    let n = toks.len();
    let mal = ParseError { kind: ParseErrorKind::MalformedRdata, line: eline, offset: eoff };
    let noo = ParseError { kind: ParseErrorKind::MissingOrigin, line: eline, offset: eoff };
    match rt {
        RrType::A => {
            if n - k == 1 {
                match &toks[k] {
                    Token::Word(w) => match parse_ipv4(w) {
                        Some((a, b, c, d)) => Ok(Rdata::A { o0: a, o1: b, o2: c, o3: d }),
                        None => Err(mal),
                    },
                    Token::Quoted(_) => Err(mal),
                }
            } else {
                Err(mal)
            }
        },
        RrType::Aaaa => {
            if n - k == 1 {
                match &toks[k] {
                    Token::Word(w) => match parse_ipv6(w) {
                        Some(g) => Ok(Rdata::Aaaa { groups: g }),
                        None => Err(mal),
                    },
                    Token::Quoted(_) => Err(mal),
                }
            } else {
                Err(mal)
            }
        },
        RrType::Cname => {
            if n - k == 1 {
                match &toks[k] {
                    Token::Word(w) => match resolve(w, origin) {
                        Some(t) => Ok(Rdata::Cname { target: t }),
                        None => Err(noo),
                    },
                    Token::Quoted(_) => Err(mal),
                }
            } else {
                Err(mal)
            }
        },
        RrType::Ns => {
            if n - k == 1 {
                match &toks[k] {
                    Token::Word(w) => match resolve(w, origin) {
                        Some(t) => Ok(Rdata::Ns { target: t }),
                        None => Err(noo),
                    },
                    Token::Quoted(_) => Err(mal),
                }
            } else {
                Err(mal)
            }
        },
        RrType::Mx => {
            if n - k == 2 {
                match (&toks[k], &toks[k + 1]) {
                    (Token::Word(w0), Token::Word(w1)) => match dec_of(w0) {
                        Some(p) => match resolve(w1, origin) {
                            Some(x) => Ok(Rdata::Mx { priority: p, exchange: x }),
                            None => Err(noo),
                        },
                        None => Err(mal),
                    },
                    _ => Err(mal),
                }
            } else {
                Err(mal)
            }
        },
        RrType::Srv => {
            if n - k == 4 {
                match (&toks[k], &toks[k + 1], &toks[k + 2], &toks[k + 3]) {
                    (Token::Word(w0), Token::Word(w1), Token::Word(w2), Token::Word(w3)) => {
                        match (dec_of(w0), dec_of(w1), dec_of(w2)) {
                            (Some(p), Some(wt), Some(pt)) => match resolve(w3, origin) {
                                Some(t) => Ok(
                                    Rdata::Srv { priority: p, weight: wt, port: pt, target: t },
                                ),
                                None => Err(noo),
                            },
                            _ => Err(mal),
                        }
                    },
                    _ => Err(mal),
                }
            } else {
                Err(mal)
            }
        },
        RrType::Caa => {
            if n - k == 3 {
                match (&toks[k], &toks[k + 1]) {
                    (Token::Word(w0), Token::Word(w1)) => match dec_of(w0) {
                        Some(f) => {
                            let value: Vec<u8> = match &toks[k + 2] {
                                Token::Word(w2) => copy_name(w2),
                                Token::Quoted(q2) => copy_name(q2),
                            };
                            Ok(Rdata::Caa { flag: f, tag: copy_name(w1), value })
                        },
                        None => Err(mal),
                    },
                    _ => Err(mal),
                }
            } else {
                Err(mal)
            }
        },
        RrType::Txt => {
            if n - k >= 1 {
                Ok(Rdata::Txt { chunks: txt_chunks_exec(toks, k) })
            } else {
                Err(mal)
            }
        },
        RrType::Soa => {
            if n - k == 7 {
                match (&toks[k], &toks[k + 1]) {
                    (Token::Word(wm), Token::Word(wr)) => {
                        match (resolve(wm, origin), resolve(wr, origin)) {
                            (Some(m), Some(r2)) => {
                                match (
                                    &toks[k + 2],
                                    &toks[k + 3],
                                    &toks[k + 4],
                                    &toks[k + 5],
                                    &toks[k + 6],
                                ) {
                                    (
                                        Token::Word(w2),
                                        Token::Word(w3),
                                        Token::Word(w4),
                                        Token::Word(w5),
                                        Token::Word(w6),
                                    ) => {
                                        match (
                                            dec_of(w2),
                                            dec_of(w3),
                                            dec_of(w4),
                                            dec_of(w5),
                                            dec_of(w6),
                                        ) {
                                            (
                                                Some(serial),
                                                Some(refresh),
                                                Some(retry),
                                                Some(expire),
                                                Some(minimum),
                                            ) => Ok(
                                                Rdata::Soa {
                                                    mname: m,
                                                    rname: r2,
                                                    serial,
                                                    refresh,
                                                    retry,
                                                    expire,
                                                    minimum,
                                                },
                                            ),
                                            _ => Err(mal),
                                        }
                                    },
                                    _ => Err(mal),
                                }
                            },
                            _ => Err(noo),
                        }
                    },
                    _ => Err(mal),
                }
            } else {
                Err(mal)
            }
        },
    }
}


/// What one logical line does to the parser state: a directive updates
/// it, a record line yields a record (and updates the remembered
/// owner), an empty line does nothing.
pub open spec fn spec_line(st: PState, lv: LineView) -> Result<(PState, Option<RecordView>), ParseError> {
    let n = lv.toks.len() as int;
    if n == 0 {
        Ok((st, None))
    } else {
        let directive = match lv.toks[0] {
            TokenView::Word(w) => w.len() >= 1 && w[0] == DOLLAR,
            TokenView::Quoted(q) => false,
        };
        if directive {
            spec_directive(st, lv)
        } else {
            spec_record_line(st, lv)
        }
    }
}

/// A `$ORIGIN` or `$TTL` directive line; anything else starting with
/// `$` (notably `$INCLUDE`) is unsupported.
pub open spec fn spec_directive(st: PState, lv: LineView) -> Result<
    (PState, Option<RecordView>),
    ParseError,
> {
    let n = lv.toks.len() as int;
    let w = match lv.toks[0] {
        TokenView::Word(w0) => w0,
        TokenView::Quoted(q0) => q0,
    };
    let uw = spec_upper(w);
    if is_kw_origin(uw) {
        if n == 2 {
            match lv.toks[1] {
                TokenView::Word(nm) => match spec_resolve(nm, st.origin) {
                    Some(o) => Ok(
                        (
                            PState {
                                origin: Some(o),
                                default_ttl: st.default_ttl,
                                last_owner: st.last_owner,
                            },
                            None,
                        ),
                    ),
                    None => Err(
                        ParseError {
                            kind: ParseErrorKind::MissingOrigin,
                            line: lv.line,
                            offset: lv.offset,
                        },
                    ),
                },
                TokenView::Quoted(q) => Err(
                    ParseError {
                        kind: ParseErrorKind::MalformedDirective,
                        line: lv.line,
                        offset: lv.offset,
                    },
                ),
            }
        } else {
            Err(
                ParseError {
                    kind: ParseErrorKind::MalformedDirective,
                    line: lv.line,
                    offset: lv.offset,
                },
            )
        }
    } else if is_kw_ttl(uw) {
        if n == 2 {
            match lv.toks[1] {
                TokenView::Word(w1) => match spec_dec_of(w1) {
                    Some(v) => Ok(
                        (
                            PState {
                                origin: st.origin,
                                default_ttl: Some(v),
                                last_owner: st.last_owner,
                            },
                            None,
                        ),
                    ),
                    None => Err(
                        ParseError {
                            kind: ParseErrorKind::MalformedDirective,
                            line: lv.line,
                            offset: lv.offset,
                        },
                    ),
                },
                TokenView::Quoted(q) => Err(
                    ParseError {
                        kind: ParseErrorKind::MalformedDirective,
                        line: lv.line,
                        offset: lv.offset,
                    },
                ),
            }
        } else {
            Err(
                ParseError {
                    kind: ParseErrorKind::MalformedDirective,
                    line: lv.line,
                    offset: lv.offset,
                },
            )
        }
    } else {
        Err(
            ParseError {
                kind: ParseErrorKind::UnsupportedDirective,
                line: lv.line,
                offset: lv.offset,
            },
        )
    }
}

/// A record line: owner (or inherited owner on a blank field), an
/// optional TTL, an optional `IN` class, the type, and the rdata.
pub open spec fn spec_record_line(st: PState, lv: LineView) -> Result<
    (PState, Option<RecordView>),
    ParseError,
> {
    let n = lv.toks.len() as int;
    let owner_k: Result<(Seq<u8>, int), ParseError> = if lv.blank {
        match st.last_owner {
            Some(o) => Ok((o, 0)),
            None => Err(
                ParseError { kind: ParseErrorKind::MissingOwner, line: lv.line, offset: lv.offset },
            ),
        }
    } else {
        match lv.toks[0] {
            TokenView::Word(w) => match spec_resolve(w, st.origin) {
                Some(o) => Ok((o, 1)),
                None => Err(
                    ParseError {
                        kind: ParseErrorKind::MissingOrigin,
                        line: lv.line,
                        offset: lv.offset,
                    },
                ),
            },
            TokenView::Quoted(q) => Err(
                ParseError {
                    kind: ParseErrorKind::MalformedRecord,
                    line: lv.line,
                    offset: lv.offset,
                },
            ),
        }
    };
    match owner_k {
        Err(e) => Err(e),
        Ok((owner, k0)) => {
            let exp_ttl: Option<u32> = if k0 < n {
                match lv.toks[k0] {
                    TokenView::Word(w) => spec_dec_of(w),
                    TokenView::Quoted(q) => None,
                }
            } else {
                None
            };
            let k1: int = if exp_ttl is Some {
                k0 + 1
            } else {
                k0
            };
            let k2: int = if k1 < n && (match lv.toks[k1] {
                TokenView::Word(w) => is_kw_in(spec_upper(w)),
                TokenView::Quoted(q) => false,
            }) {
                k1 + 1
            } else {
                k1
            };
            if k2 >= n {
                Err(
                    ParseError {
                        kind: ParseErrorKind::MalformedRecord,
                        line: lv.line,
                        offset: lv.offset,
                    },
                )
            } else {
                match lv.toks[k2] {
                    TokenView::Quoted(q) => Err(
                        ParseError {
                            kind: ParseErrorKind::MalformedRecord,
                            line: lv.line,
                            offset: lv.offset,
                        },
                    ),
                    TokenView::Word(tw) => match spec_rrtype_of(spec_upper(tw)) {
                        None => Err(
                            ParseError {
                                kind: ParseErrorKind::UnsupportedRecordType,
                                line: lv.line,
                                offset: lv.offset,
                            },
                        ),
                        Some(rt) => {
                            let ttl_final: Option<u32> = if exp_ttl is Some {
                                exp_ttl
                            } else {
                                st.default_ttl
                            };
                            match ttl_final {
                                None => Err(
                                    ParseError {
                                        kind: ParseErrorKind::MissingTtl,
                                        line: lv.line,
                                        offset: lv.offset,
                                    },
                                ),
                                Some(ttl) => match spec_rdata(
                                    rt,
                                    lv.toks,
                                    k2 + 1,
                                    st.origin,
                                    lv.line,
                                    lv.offset,
                                ) {
                                    Err(e) => Err(e),
                                    Ok(rd) => Ok(
                                        (
                                            PState {
                                                origin: st.origin,
                                                default_ttl: st.default_ttl,
                                                last_owner: Some(owner),
                                            },
                                            Some(
                                                RecordView {
                                                    owner,
                                                    ttl,
                                                    rtype: rt,
                                                    rdata: rd,
                                                },
                                            ),
                                        ),
                                    ),
                                },
                            }
                        },
                    },
                }
            }
        },
    }
}


fn kw_origin(u: &Vec<u8>) -> (r: bool)
    ensures
        r == is_kw_origin(u@),
{
    u.len() == 7 && u[0] == DOLLAR && u[1] == UC_O && u[2] == UC_R && u[3] == UC_I && u[4] == UC_G
        && u[5] == UC_I && u[6] == UC_N
}

fn kw_ttl(u: &Vec<u8>) -> (r: bool)
    ensures
        r == is_kw_ttl(u@),
{
    u.len() == 4 && u[0] == DOLLAR && u[1] == UC_T && u[2] == UC_T && u[3] == UC_L
}

fn kw_in(u: &Vec<u8>) -> (r: bool)
    ensures
        r == is_kw_in(u@),
{
    u.len() == 2 && u[0] == UC_I && u[1] == UC_N
}

fn directive_step(st: ParserState, lv: &TokenLine) -> (r: Result<
    (ParserState, Option<ResourceRecord>),
    ParseError,
>)
    requires
        lv.toks@.len() >= 1,
    ensures
        match r {
            Ok(p) => spec_directive(st.deep_view(), lv.deep_view()) == Ok::<
                (PState, Option<RecordView>),
                ParseError,
            >((p.0.deep_view(), p.1.deep_view())),
            Err(e) => spec_directive(st.deep_view(), lv.deep_view()) == Err::<
                (PState, Option<RecordView>),
                ParseError,
            >(e),
        },
{
    proof {
        assert(forall|j: int|
            0 <= j < lv.toks@.len() ==> lv.deep_view().toks[j] == lv.toks@[j].deep_view());
    }
    let n = lv.toks.len();
    let mald = ParseError {
        kind: ParseErrorKind::MalformedDirective,
        line: lv.line,
        offset: lv.offset,
    };
    let w: &Vec<u8> = match &lv.toks[0] {
        Token::Word(w0) => w0,
        Token::Quoted(q0) => q0,
    };
    let uw = upper_bytes(w);
    if kw_origin(&uw) {
        if n == 2 {
            match &lv.toks[1] {
                Token::Word(nm) => match resolve(nm, &st.origin) {
                    Some(o) => Ok(
                        (
                            ParserState {
                                origin: Some(o),
                                default_ttl: st.default_ttl,
                                last_owner: st.last_owner,
                            },
                            None,
                        ),
                    ),
                    None => Err(
                        ParseError {
                            kind: ParseErrorKind::MissingOrigin,
                            line: lv.line,
                            offset: lv.offset,
                        },
                    ),
                },
                Token::Quoted(_) => Err(mald),
            }
        } else {
            Err(mald)
        }
    } else if kw_ttl(&uw) {
        if n == 2 {
            match &lv.toks[1] {
                Token::Word(w1) => match dec_of(w1) {
                    Some(v) => Ok(
                        (
                            ParserState {
                                origin: st.origin,
                                default_ttl: Some(v),
                                last_owner: st.last_owner,
                            },
                            None,
                        ),
                    ),
                    None => Err(mald),
                },
                Token::Quoted(_) => Err(mald),
            }
        } else {
            Err(mald)
        }
    } else {
        Err(
            ParseError {
                kind: ParseErrorKind::UnsupportedDirective,
                line: lv.line,
                offset: lv.offset,
            },
        )
    }
}

fn record_step(st: ParserState, lv: &TokenLine) -> (r: Result<
    (ParserState, Option<ResourceRecord>),
    ParseError,
>)
    requires
        lv.toks@.len() >= 1,
    ensures
        match r {
            Ok(p) => spec_record_line(st.deep_view(), lv.deep_view()) == Ok::<
                (PState, Option<RecordView>),
                ParseError,
            >((p.0.deep_view(), p.1.deep_view())),
            Err(e) => spec_record_line(st.deep_view(), lv.deep_view()) == Err::<
                (PState, Option<RecordView>),
                ParseError,
            >(e),
        },
{
    proof {
        assert(forall|j: int|
            0 <= j < lv.toks@.len() ==> lv.deep_view().toks[j] == lv.toks@[j].deep_view());
    }
    let n = lv.toks.len();
    let malr = ParseError {
        kind: ParseErrorKind::MalformedRecord,
        line: lv.line,
        offset: lv.offset,
    };
    let owner: Vec<u8>;
    let k0: usize;
    if lv.blank {
        match &st.last_owner {
            Some(o) => {
                owner = copy_name(o);
                k0 = 0;
            },
            None => {
                return Err(
                    ParseError {
                        kind: ParseErrorKind::MissingOwner,
                        line: lv.line,
                        offset: lv.offset,
                    },
                );
            },
        }
    } else {
        match &lv.toks[0] {
            Token::Word(w) => match resolve(w, &st.origin) {
                Some(o) => {
                    owner = o;
                    k0 = 1;
                },
                None => {
                    return Err(
                        ParseError {
                            kind: ParseErrorKind::MissingOrigin,
                            line: lv.line,
                            offset: lv.offset,
                        },
                    );
                },
            },
            Token::Quoted(_) => {
                return Err(malr);
            },
        }
    }
    let exp_ttl: Option<u32> = if k0 < n {
        match &lv.toks[k0] {
            Token::Word(w) => dec_of(w),
            Token::Quoted(_) => None,
        }
    } else {
        None
    };
    let k1: usize = if exp_ttl.is_some() {
        k0 + 1
    } else {
        k0
    };
    let in_class: bool = if k1 < n {
        match &lv.toks[k1] {
            Token::Word(w) => {
                let uw = upper_bytes(w);
                kw_in(&uw)
            },
            Token::Quoted(_) => false,
        }
    } else {
        false
    };
    let k2: usize = if in_class {
        k1 + 1
    } else {
        k1
    };
    if k2 >= n {
        return Err(malr);
    }
    match &lv.toks[k2] {
        Token::Quoted(_) => Err(malr),
        Token::Word(tw) => {
            let utw = upper_bytes(tw);
            match rrtype_of(&utw) {
                None => Err(
                    ParseError {
                        kind: ParseErrorKind::UnsupportedRecordType,
                        line: lv.line,
                        offset: lv.offset,
                    },
                ),
                Some(rt) => {
                    let ttl_final: Option<u32> = if exp_ttl.is_some() {
                        exp_ttl
                    } else {
                        st.default_ttl
                    };
                    match ttl_final {
                        None => Err(
                            ParseError {
                                kind: ParseErrorKind::MissingTtl,
                                line: lv.line,
                                offset: lv.offset,
                            },
                        ),
                        Some(ttl) => {
                            match rdata_of(rt, &lv.toks, k2 + 1, &st.origin, lv.line, lv.offset) {
                                Err(e) => Err(e),
                                Ok(rd) => {
                                    let last = copy_name(&owner);
                                    Ok(
                                        (
                                            ParserState {
                                                origin: st.origin,
                                                default_ttl: st.default_ttl,
                                                last_owner: Some(last),
                                            },
                                            Some(
                                                ResourceRecord {
                                                    owner,
                                                    ttl,
                                                    rtype: rt,
                                                    rdata: rd,
                                                },
                                            ),
                                        ),
                                    )
                                },
                            }
                        },
                    }
                },
            }
        },
    }
}

fn line_step(st: ParserState, lv: &TokenLine) -> (r: Result<
    (ParserState, Option<ResourceRecord>),
    ParseError,
>)
    ensures
        match r {
            Ok(p) => spec_line(st.deep_view(), lv.deep_view()) == Ok::<
                (PState, Option<RecordView>),
                ParseError,
            >((p.0.deep_view(), p.1.deep_view())),
            Err(e) => spec_line(st.deep_view(), lv.deep_view()) == Err::<
                (PState, Option<RecordView>),
                ParseError,
            >(e),
        },
{
    proof {
        assert(forall|j: int|
            0 <= j < lv.toks@.len() ==> lv.deep_view().toks[j] == lv.toks@[j].deep_view());
    }
    if lv.toks.len() == 0 {
        return Ok((st, None));
    }
    let directive: bool = match &lv.toks[0] {
        Token::Word(w) => w.len() >= 1 && w[0] == DOLLAR,
        Token::Quoted(_) => false,
    };
    if directive {
        directive_step(st, lv)
    } else {
        record_step(st, lv)
    }
}

/// Folds the logical lines from `j` on into records, threading the
/// parser state.
pub open spec fn spec_parse_lines(
    lines: Seq<LineView>,
    j: int,
    st: PState,
    recs: Seq<RecordView>,
) -> Result<(PState, Seq<RecordView>), ParseError>
    decreases lines.len() - j,
        when 0 <= j
{
    if j >= lines.len() {
        Ok((st, recs))
    } else {
        match spec_line(st, lines[j]) {
            Err(e) => Err(e),
            Ok((st2, orec)) => spec_parse_lines(
                lines,
                j + 1,
                st2,
                match orec {
                    Some(r) => recs.push(r),
                    None => recs,
                },
            ),
        }
    }
}

/// The parser's starting state: no origin, no default TTL, no previous
/// owner.
pub open spec fn init_pstate() -> PState {
    PState { origin: None, default_ttl: None, last_owner: None }
}

/// What parsing a whole zone file yields: the records in file order,
/// the effective origin (the `$ORIGIN` in force at the end, else the
/// first record's owner, else the root name), and the default TTL left
/// in force.
pub open spec fn spec_parse(s: Seq<u8>) -> Result<ZoneView, ParseError> {
    match spec_tokenize(s) {
        Err(e) => Err(e),
        Ok(lines) => match spec_parse_lines(lines, 0, init_pstate(), Seq::empty()) {
            Err(e) => Err(e),
            Ok((st, recs)) => Ok(
                ZoneView {
                    origin: match st.origin {
                        Some(o) => o,
                        None => if recs.len() > 0 {
                            recs[0].owner
                        } else {
                            seq![DOT]
                        },
                    },
                    default_ttl: st.default_ttl,
                    records: recs,
                },
            ),
        },
    }
}

/// Parses zone-file text, exactly as [`spec_parse`] describes.
pub fn parse(input: &Vec<u8>) -> (r: Result<Zone, ParseError>)
    ensures
        match r {
            Ok(z) => spec_parse(input@) == Ok::<ZoneView, ParseError>(z.deep_view()),
            Err(e) => spec_parse(input@) == Err::<ZoneView, ParseError>(e),
        },
{
    let lines = match tokenize(input) {
        Ok(l) => l,
        Err(e) => {
            return Err(e);
        },
    };
    let mut st = ParserState { origin: None, default_ttl: None, last_owner: None };
    let mut recs: Vec<ResourceRecord> = Vec::new();
    let mut j: usize = 0;
    proof {
        assert(st.deep_view() == init_pstate());
        assert(recs.deep_view() =~= Seq::<RecordView>::empty());
    }
    while j < lines.len()
        invariant
            j <= lines.len(),
            spec_tokenize(input@) == Ok::<Seq<LineView>, ParseError>(lines.deep_view()),
            spec_parse_lines(lines.deep_view(), j as int, st.deep_view(), recs.deep_view())
                == spec_parse_lines(lines.deep_view(), 0, init_pstate(), Seq::empty()),
        decreases lines.len() - j,
    {
        proof {
            assert(lines.deep_view()[j as int] == lines@[j as int].deep_view());
        }
        match line_step(st, &lines[j]) {
            Err(e) => {
                return Err(e);
            },
            Ok((st2, orec)) => {
                st = st2;
                match orec {
                    Some(rec) => {
                        let ghost pre = recs.deep_view();
                        let ghost rv = rec.deep_view();
                        recs.push(rec);
                        proof {
                            assert(recs.deep_view() =~~= pre.push(rv));
                        }
                    },
                    None => {},
                }
            },
        }
        j = j + 1;
    }
    let ParserState { origin: oopt, default_ttl, last_owner: _ } = st;
    let origin: Vec<u8> = match oopt {
        Some(o) => o,
        None => {
            if recs.len() > 0 {
                copy_name(&recs[0].owner)
            } else {
                let mut v: Vec<u8> = Vec::new();
                v.push(DOT);
                proof {
                    assert(v@ =~= seq![DOT]);
                }
                v
            }
        },
    };
    Ok(Zone { origin, default_ttl, records: recs })
}

} // verus!
