//! End-to-end tests of the zone-file engine: parsing, validation,
//! serialization and the error paths.

use hetzname::diag::{DiagnosticCode, ParseErrorKind, Severity};
use hetzname::model::{Rdata, RrType};
use hetzname::{parse, serialize, validate};

fn b(s: &str) -> Vec<u8> {
    s.as_bytes().to_vec()
}

const THREE_RECORD_ZONE: &str = "$ORIGIN example.com.\n\
@ 300 IN SOA ns1.example.com. admin.example.com. 1 3600 900 604800 300\n\
@ 300 IN NS ns1.example.com.\n\
www 300 IN A 203.0.113.5\n";

#[test]
fn end_to_end_three_record_zone() {
    let z = parse(&b(THREE_RECORD_ZONE)).expect("zone must parse");
    assert_eq!(z.records.len(), 3);
    assert_eq!(z.origin, b("example.com."));
    assert_eq!(z.records[0].owner, b("example.com."));
    assert_eq!(z.records[0].ttl, 300);
    assert_eq!(z.records[0].rtype, RrType::Soa);
    match &z.records[0].rdata {
        Rdata::Soa { mname, rname, serial, refresh, retry, expire, minimum } => {
            assert_eq!(*mname, b("ns1.example.com."));
            assert_eq!(*rname, b("admin.example.com."));
            assert_eq!((*serial, *refresh, *retry, *expire, *minimum), (1, 3600, 900, 604800, 300));
        },
        _ => panic!("expected SOA rdata"),
    }
    assert_eq!(z.records[1].rtype, RrType::Ns);
    assert_eq!(z.records[2].owner, b("www.example.com."));
    match &z.records[2].rdata {
        Rdata::A { o0, o1, o2, o3 } => assert_eq!((*o0, *o1, *o2, *o3), (203, 0, 113, 5)),
        _ => panic!("expected A rdata"),
    }
    // Zero validation errors.
    let diags = validate(&z);
    assert!(diags.iter().all(|d| d.severity != Severity::Error));
    // Round-trips through serialize/parse unchanged semantically.
    let s1 = serialize(&z);
    let z2 = parse(&s1).expect("serialized zone must parse");
    assert_eq!(z2.records.len(), 3);
    assert_eq!(z2.origin, z.origin);
    let s2 = serialize(&z2);
    assert_eq!(s1, s2);
}

#[test]
fn origin_resolves_relative_names() {
    let z = parse(&b("$ORIGIN example.com.\nwww 300 IN A 203.0.113.5\n")).unwrap();
    assert_eq!(z.records[0].owner, b("www.example.com."));
}

#[test]
fn at_sign_denotes_origin() {
    let z = parse(&b("$ORIGIN example.com.\n@ 60 IN NS ns.example.com.\n")).unwrap();
    assert_eq!(z.records[0].owner, b("example.com."));
}

#[test]
fn two_soa_records_yield_invalid_soa_count() {
    let input = "$ORIGIN example.com.\n\
@ 300 IN SOA ns1.example.com. admin.example.com. 1 3600 900 604800 300\n\
@ 300 IN SOA ns2.example.com. admin.example.com. 2 3600 900 604800 300\n";
    let z = parse(&b(input)).unwrap();
    let diags = validate(&z);
    assert_eq!(diags[0].code, DiagnosticCode::InvalidSoaCount);
    assert_eq!(diags[0].severity, Severity::Error);
}

#[test]
fn zero_soa_records_yield_invalid_soa_count() {
    let z = parse(&b("$ORIGIN example.com.\n@ 300 IN A 1.2.3.4\n")).unwrap();
    let diags = validate(&z);
    assert!(diags.iter().any(|d| d.code == DiagnosticCode::InvalidSoaCount));
}

#[test]
fn blank_owner_without_previous_owner_fails() {
    let e = parse(&b("\t300 IN A 1.2.3.4\n")).unwrap_err();
    assert_eq!(e.kind, ParseErrorKind::MissingOwner);
    assert_eq!(e.line, 1);
}

#[test]
fn blank_owner_inherits_previous_owner() {
    let input = "$ORIGIN example.com.\nwww 300 IN A 1.2.3.4\n\t300 IN A 5.6.7.8\n";
    let z = parse(&b(input)).unwrap();
    assert_eq!(z.records.len(), 2);
    assert_eq!(z.records[1].owner, b("www.example.com."));
}

#[test]
fn mx_priority_70000_yields_field_range_error() {
    let input = "$ORIGIN example.com.\n\
@ 300 IN SOA ns1.example.com. admin.example.com. 1 3600 900 604800 300\n\
@ 300 IN MX 70000 mail.example.com.\n";
    let z = parse(&b(input)).unwrap();
    match &z.records[1].rdata {
        Rdata::Mx { priority, .. } => assert_eq!(*priority, 70000),
        _ => panic!("expected MX rdata"),
    }
    let diags = validate(&z);
    assert!(diags.iter().any(|d| d.severity == Severity::Error
        && d.code == DiagnosticCode::FieldRangeError
        && d.record_index == 1));
}

#[test]
fn mx_priority_in_range_is_clean() {
    let input = "$ORIGIN example.com.\n\
@ 300 IN SOA ns1.example.com. admin.example.com. 1 3600 900 604800 300\n\
@ 300 IN MX 10 mail.example.com.\n";
    let z = parse(&b(input)).unwrap();
    let diags = validate(&z);
    assert!(diags.iter().all(|d| d.severity != Severity::Error));
}

#[test]
fn unterminated_string_fails() {
    let e = parse(&b("$ORIGIN e.com.\n@ 300 IN TXT \"abc\n")).unwrap_err();
    assert_eq!(e.kind, ParseErrorKind::UnterminatedString);
    assert_eq!(e.line, 2);
}

#[test]
fn unbalanced_parens_fail() {
    let e = parse(&b("$ORIGIN e.com.\n@ 300 IN A ( 1.2.3.4\n")).unwrap_err();
    assert_eq!(e.kind, ParseErrorKind::UnbalancedParen);
    let e2 = parse(&b(") \n")).unwrap_err();
    assert_eq!(e2.kind, ParseErrorKind::UnbalancedParen);
}

#[test]
fn include_directive_is_unsupported() {
    let e = parse(&b("$INCLUDE other.zone\n")).unwrap_err();
    assert_eq!(e.kind, ParseErrorKind::UnsupportedDirective);
}

#[test]
fn unknown_record_type_fails() {
    let e = parse(&b("$ORIGIN e.com.\n@ 300 IN WKS something\n")).unwrap_err();
    assert_eq!(e.kind, ParseErrorKind::UnsupportedRecordType);
    assert_eq!(e.line, 2);
}

#[test]
fn missing_ttl_fails() {
    let e = parse(&b("$ORIGIN e.com.\n@ IN A 1.2.3.4\n")).unwrap_err();
    assert_eq!(e.kind, ParseErrorKind::MissingTtl);
}

#[test]
fn ttl_directive_supplies_default() {
    let z = parse(&b("$ORIGIN e.com.\n$TTL 1200\n@ IN A 1.2.3.4\n")).unwrap();
    assert_eq!(z.records[0].ttl, 1200);
    assert_eq!(z.default_ttl, Some(1200));
}

#[test]
fn missing_origin_fails_for_relative_owner() {
    let e = parse(&b("www 300 IN A 1.2.3.4\n")).unwrap_err();
    assert_eq!(e.kind, ParseErrorKind::MissingOrigin);
}

#[test]
fn absolute_names_need_no_origin() {
    let z = parse(&b("www.example.com. 300 IN A 1.2.3.4\n")).unwrap();
    assert_eq!(z.records[0].owner, b("www.example.com."));
    // With no $ORIGIN, the zone takes the first owner as its origin.
    assert_eq!(z.origin, b("www.example.com."));
}

#[test]
fn cname_exclusivity_violation_is_reported() {
    let input = "$ORIGIN example.com.\n\
@ 300 IN SOA ns1.example.com. admin.example.com. 1 3600 900 604800 300\n\
www 300 IN CNAME host.example.com.\n\
www 300 IN A 1.2.3.4\n";
    let z = parse(&b(input)).unwrap();
    let diags = validate(&z);
    assert!(diags.iter().any(|d| d.code == DiagnosticCode::CnameExclusivityViolation
        && d.record_index == 1));
}

#[test]
fn overlong_label_yields_invalid_domain_name() {
    let long = "a".repeat(70);
    let input = format!(
        "$ORIGIN example.com.\n\
@ 300 IN SOA ns1.example.com. admin.example.com. 1 3600 900 604800 300\n\
@ 300 IN NS {}.example.com.\n",
        long
    );
    let z = parse(&b(&input)).unwrap();
    let diags = validate(&z);
    assert!(diags.iter().any(|d| d.code == DiagnosticCode::InvalidDomainName
        && d.record_index == 1));
}

#[test]
fn soa_refresh_not_below_expire_warns() {
    let input = "$ORIGIN example.com.\n\
@ 300 IN SOA ns1.example.com. admin.example.com. 1 604800 900 3600 300\n";
    let z = parse(&b(input)).unwrap();
    let diags = validate(&z);
    assert!(diags.iter().any(|d| d.severity == Severity::Warning
        && d.code == DiagnosticCode::SoaTimingAdvisory));
    assert!(diags.iter().all(|d| d.severity != Severity::Error));
}

#[test]
fn txt_escapes_are_decoded() {
    let z = parse(&b("$ORIGIN e.com.\n@ 300 IN TXT \"a\\\"b\\\\c\\065\" plain\n")).unwrap();
    match &z.records[0].rdata {
        Rdata::Txt { chunks } => {
            assert_eq!(chunks.len(), 2);
            assert_eq!(chunks[0], b("a\"b\\cA"));
            assert_eq!(chunks[1], b("plain"));
        },
        _ => panic!("expected TXT rdata"),
    }
}

#[test]
fn bad_decimal_escape_fails() {
    let e = parse(&b("$ORIGIN e.com.\n@ 300 IN TXT \"a\\9x\"\n")).unwrap_err();
    assert_eq!(e.kind, ParseErrorKind::InvalidEscape);
    let e2 = parse(&b("$ORIGIN e.com.\n@ 300 IN TXT \"a\\999\"\n")).unwrap_err();
    assert_eq!(e2.kind, ParseErrorKind::InvalidEscape);
}

#[test]
fn parenthesized_records_span_lines() {
    let input = "$ORIGIN example.com.\n\
@ 300 IN SOA ns1.example.com. admin.example.com. (\n\
    1 ; serial\n\
    3600 900 604800 300 )\n";
    let z = parse(&b(input)).unwrap();
    assert_eq!(z.records.len(), 1);
    match &z.records[0].rdata {
        Rdata::Soa { serial, minimum, .. } => {
            assert_eq!(*serial, 1);
            assert_eq!(*minimum, 300);
        },
        _ => panic!("expected SOA rdata"),
    }
}

#[test]
fn comments_are_discarded() {
    let input = "; leading comment\n$ORIGIN e.com. ; trailing\n@ 300 IN A 1.2.3.4 ; end\n";
    let z = parse(&b(input)).unwrap();
    assert_eq!(z.records.len(), 1);
}

#[test]
fn ipv4_out_of_range_octet_fails() {
    let e = parse(&b("$ORIGIN e.com.\n@ 300 IN A 1.2.3.256\n")).unwrap_err();
    assert_eq!(e.kind, ParseErrorKind::MalformedRdata);
}

#[test]
fn aaaa_full_form_parses_and_round_trips() {
    let z = parse(&b("$ORIGIN e.com.\n@ 300 IN AAAA 2001:db8:0:0:0:0:0:1\n")).unwrap();
    match &z.records[0].rdata {
        Rdata::Aaaa { groups } => {
            assert_eq!(groups.as_slice(), &[0x2001, 0xdb8, 0, 0, 0, 0, 0, 1]);
        },
        _ => panic!("expected AAAA rdata"),
    }
    let s = serialize(&z);
    let text = String::from_utf8(s.clone()).unwrap();
    assert!(text.contains("2001:db8:0:0:0:0:0:1"));
    let z2 = parse(&s).unwrap();
    assert_eq!(serialize(&z2), s);
}

#[test]
fn srv_and_caa_parse_and_validate() {
    let input = "$ORIGIN example.com.\n\
@ 300 IN SOA ns1.example.com. admin.example.com. 1 3600 900 604800 300\n\
_sip._tcp 300 IN SRV 10 60 5060 sip.example.com.\n\
@ 300 IN CAA 0 issue \"ca.example.net\"\n";
    let z = parse(&b(input)).unwrap();
    match &z.records[1].rdata {
        Rdata::Srv { priority, weight, port, target } => {
            assert_eq!((*priority, *weight, *port), (10, 60, 5060));
            assert_eq!(*target, b("sip.example.com."));
        },
        _ => panic!("expected SRV rdata"),
    }
    match &z.records[2].rdata {
        Rdata::Caa { flag, tag, value } => {
            assert_eq!(*flag, 0);
            assert_eq!(*tag, b("issue"));
            assert_eq!(*value, b("ca.example.net"));
        },
        _ => panic!("expected CAA rdata"),
    }
    let diags = validate(&z);
    assert!(diags.iter().all(|d| d.severity != Severity::Error));
}

#[test]
fn serializer_groups_by_owner_and_round_trips() {
    let input = "$ORIGIN example.com.\n\
www 300 IN A 1.2.3.4\n\
@ 300 IN SOA ns1.example.com. admin.example.com. 1 3600 900 604800 300\n\
www 600 IN TXT \"hello world\"\n\
mail 300 IN A 5.6.7.8\n";
    let z = parse(&b(input)).unwrap();
    let s1 = serialize(&z);
    let text = String::from_utf8(s1.clone()).unwrap();
    // SOA first, then the two www records together, then mail.
    let lines: Vec<&str> = text.lines().collect();
    assert_eq!(lines[0], "$ORIGIN example.com.");
    assert!(lines[1].contains("SOA"));
    assert!(lines[2].starts_with("www.example.com. "));
    assert!(lines[3].starts_with('\t') && lines[3].contains("TXT"));
    assert!(lines[4].starts_with("mail.example.com. "));
    let z2 = parse(&s1).unwrap();
    assert_eq!(z2.records.len(), 4);
    assert_eq!(serialize(&z2), s1);
}

#[test]
fn diagnostic_messages_name_the_problem() {
    let input = "$ORIGIN example.com.\n@ 300 IN A 1.2.3.4\n";
    let z = parse(&b(input)).unwrap();
    let diags = validate(&z);
    assert_eq!(diags[0].message(), "zone must hold exactly one SOA record");
    let e = parse(&b("www 300 IN A 1.2.3.4\n")).unwrap_err();
    assert_eq!(e.message(), "relative name with no origin set");
}

#[test]
fn number_too_large_for_ttl_is_not_a_ttl() {
    // A 13-digit "TTL" does not fit u32; the token is then read as a
    // record type and refused.
    let e = parse(&b("$ORIGIN e.com.\n@ 9999999999999 IN A 1.2.3.4\n")).unwrap_err();
    assert_eq!(e.kind, ParseErrorKind::UnsupportedRecordType);
}

#[test]
fn lowercase_type_and_class_are_accepted() {
    let z = parse(&b("$ORIGIN e.com.\nwww 300 in a 1.2.3.4\n")).unwrap();
    assert_eq!(z.records[0].rtype, RrType::A);
}

#[test]
fn malformed_ttl_directive_fails() {
    let e = parse(&b("$TTL soon\n")).unwrap_err();
    assert_eq!(e.kind, ParseErrorKind::MalformedDirective);
    let e2 = parse(&b("$ORIGIN\n")).unwrap_err();
    assert_eq!(e2.kind, ParseErrorKind::MalformedDirective);
}

#[test]
fn quoted_owner_is_malformed() {
    let e = parse(&b("\"www\" 300 IN A 1.2.3.4\n")).unwrap_err();
    assert_eq!(e.kind, ParseErrorKind::MalformedRecord);
}

#[test]
fn caa_flag_out_of_range_is_reported() {
    let input = "$ORIGIN example.com.\n\
@ 300 IN SOA ns1.example.com. admin.example.com. 1 3600 900 604800 300\n\
@ 300 IN CAA 300 issue \"ca.example.net\"\n";
    let z = parse(&b(input)).unwrap();
    let diags = validate(&z);
    assert!(diags.iter().any(|d| d.severity == Severity::Error
        && d.code == DiagnosticCode::FieldRangeError
        && d.record_index == 1));
}

#[test]
fn overlong_txt_chunk_is_reported() {
    let long = "x".repeat(300);
    let input = format!(
        "$ORIGIN example.com.\n\
@ 300 IN SOA ns1.example.com. admin.example.com. 1 3600 900 604800 300\n\
@ 300 IN TXT \"{}\"\n",
        long
    );
    let z = parse(&b(&input)).unwrap();
    let diags = validate(&z);
    assert!(diags.iter().any(|d| d.severity == Severity::Error
        && d.code == DiagnosticCode::FieldRangeError
        && d.record_index == 1));
}

#[test]
fn srv_port_out_of_range_is_reported() {
    let input = "$ORIGIN example.com.\n\
@ 300 IN SOA ns1.example.com. admin.example.com. 1 3600 900 604800 300\n\
_sip._tcp 300 IN SRV 10 60 70000 sip.example.com.\n";
    let z = parse(&b(input)).unwrap();
    let diags = validate(&z);
    assert!(diags.iter().any(|d| d.severity == Severity::Error
        && d.code == DiagnosticCode::FieldRangeError
        && d.record_index == 1));
}

#[test]
fn class_may_be_omitted() {
    let z = parse(&b("$ORIGIN e.com.\nwww 300 A 1.2.3.4\n")).unwrap();
    assert_eq!(z.records[0].rtype, RrType::A);
    assert_eq!(z.records[0].ttl, 300);
}

#[test]
fn malformed_rdata_arity_fails() {
    let e = parse(&b("$ORIGIN e.com.\n@ 300 IN MX mail.e.com.\n")).unwrap_err();
    assert_eq!(e.kind, ParseErrorKind::MalformedRdata);
    let e2 = parse(&b("$ORIGIN e.com.\n@ 300 IN A 1.2.3.4 extra\n")).unwrap_err();
    assert_eq!(e2.kind, ParseErrorKind::MalformedRdata);
}

#[test]
fn aaaa_zero_compression_forms_parse() {
    let z = parse(&b("$ORIGIN e.com.\n@ 300 IN AAAA ::1\n")).unwrap();
    match &z.records[0].rdata {
        Rdata::Aaaa { groups } => assert_eq!(groups.as_slice(), &[0, 0, 0, 0, 0, 0, 0, 1]),
        _ => panic!("expected AAAA rdata"),
    }
    let z2 = parse(&b("$ORIGIN e.com.\n@ 300 IN AAAA 2001:db8::8:800:200c:417a\n")).unwrap();
    match &z2.records[0].rdata {
        Rdata::Aaaa { groups } => {
            assert_eq!(groups.as_slice(), &[0x2001, 0xdb8, 0, 0, 0x8, 0x800, 0x200c, 0x417a]);
        },
        _ => panic!("expected AAAA rdata"),
    }
    let z3 = parse(&b("$ORIGIN e.com.\n@ 300 IN AAAA fe80::\n")).unwrap();
    match &z3.records[0].rdata {
        Rdata::Aaaa { groups } => assert_eq!(groups.as_slice(), &[0xfe80, 0, 0, 0, 0, 0, 0, 0]),
        _ => panic!("expected AAAA rdata"),
    }
    let z4 = parse(&b("$ORIGIN e.com.\n@ 300 IN AAAA ::\n")).unwrap();
    match &z4.records[0].rdata {
        Rdata::Aaaa { groups } => assert_eq!(groups.as_slice(), &[0u16; 8]),
        _ => panic!("expected AAAA rdata"),
    }
}

#[test]
fn bad_ipv6_forms_fail() {
    assert_eq!(
        parse(&b("$ORIGIN e.com.\n@ 300 IN AAAA 1:::2\n")).unwrap_err().kind,
        ParseErrorKind::MalformedRdata
    );
    assert_eq!(
        parse(&b("$ORIGIN e.com.\n@ 300 IN AAAA 1:2:3\n")).unwrap_err().kind,
        ParseErrorKind::MalformedRdata
    );
    assert_eq!(
        parse(&b("$ORIGIN e.com.\n@ 300 IN AAAA 1::2::3\n")).unwrap_err().kind,
        ParseErrorKind::MalformedRdata
    );
    assert_eq!(
        parse(&b("$ORIGIN e.com.\n@ 300 IN AAAA 12345::1\n")).unwrap_err().kind,
        ParseErrorKind::MalformedRdata
    );
}
