//! Tests of the command-line record-type names.

use hetzname::args::record::RecordType;

#[test]
fn record_type_accepts_exact_spellings() {
    assert_eq!(RecordType::from_str("A").unwrap(), RecordType::A);
    assert_eq!(RecordType::from_str("a").unwrap(), RecordType::A);
    assert_eq!(RecordType::from_str("AAAA").unwrap(), RecordType::AAAA);
    assert_eq!(RecordType::from_str("aaaa").unwrap(), RecordType::AAAA);
    assert_eq!(RecordType::from_str("CAA").unwrap(), RecordType::CAA);
    assert_eq!(RecordType::from_str("CNAME").unwrap(), RecordType::CNAME);
    assert_eq!(RecordType::from_str("cname").unwrap(), RecordType::CNAME);
    assert_eq!(RecordType::from_str("MX").unwrap(), RecordType::MX);
    assert_eq!(RecordType::from_str("NS").unwrap(), RecordType::NS);
    assert_eq!(RecordType::from_str("SRV").unwrap(), RecordType::SRV);
    assert_eq!(RecordType::from_str("srv").unwrap(), RecordType::SRV);
    assert_eq!(RecordType::from_str("TXT").unwrap(), RecordType::TXT);
    assert_eq!(RecordType::from_str("txt").unwrap(), RecordType::TXT);
}

#[test]
fn record_type_rejects_other_spellings() {
    assert_eq!(RecordType::from_str("Mx").unwrap_err(), "invalid record type");
    assert_eq!(RecordType::from_str("SOA").unwrap_err(), "invalid record type");
    assert_eq!(RecordType::from_str("").unwrap_err(), "invalid record type");
    assert_eq!(RecordType::from_str("bogus").unwrap_err(), "invalid record type");
}
