//! Tests of the constants each record kind brings to its controller.

use bindy::crd::DNSRecordKind;
use bindy::labels;
use hickory_proto::rr::RecordType;

#[test]
fn test_a_record_constants() {
    assert_eq!(DNSRecordKind::A.as_str(), "ARecord");
    assert_eq!(DNSRecordKind::A.finalizer(), labels::FINALIZER_A_RECORD);
    assert_eq!(DNSRecordKind::A.dns_type(), "A");
}

#[test]
fn test_a_record_hickory_type() {
    assert_eq!(DNSRecordKind::A.hickory_record_type(), RecordType::A);
}

#[test]
fn test_aaaa_record_constants() {
    assert_eq!(DNSRecordKind::AAAA.as_str(), "AAAARecord");
    assert_eq!(DNSRecordKind::AAAA.finalizer(), labels::FINALIZER_AAAA_RECORD);
    assert_eq!(DNSRecordKind::AAAA.dns_type(), "AAAA");
}

#[test]
fn test_aaaa_record_hickory_type() {
    assert_eq!(DNSRecordKind::AAAA.hickory_record_type(), RecordType::AAAA);
}

#[test]
fn test_txt_record_constants() {
    assert_eq!(DNSRecordKind::TXT.as_str(), "TXTRecord");
    assert_eq!(DNSRecordKind::TXT.finalizer(), labels::FINALIZER_TXT_RECORD);
    assert_eq!(DNSRecordKind::TXT.dns_type(), "TXT");
}

#[test]
fn test_txt_record_hickory_type() {
    assert_eq!(DNSRecordKind::TXT.hickory_record_type(), RecordType::TXT);
}

#[test]
fn test_cname_record_constants() {
    assert_eq!(DNSRecordKind::CNAME.as_str(), "CNAMERecord");
    assert_eq!(DNSRecordKind::CNAME.finalizer(), labels::FINALIZER_CNAME_RECORD);
    assert_eq!(DNSRecordKind::CNAME.dns_type(), "CNAME");
}

#[test]
fn test_cname_record_hickory_type() {
    assert_eq!(DNSRecordKind::CNAME.hickory_record_type(), RecordType::CNAME);
}

#[test]
fn test_mx_record_constants() {
    assert_eq!(DNSRecordKind::MX.as_str(), "MXRecord");
    assert_eq!(DNSRecordKind::MX.finalizer(), labels::FINALIZER_MX_RECORD);
    assert_eq!(DNSRecordKind::MX.dns_type(), "MX");
}

#[test]
fn test_mx_record_hickory_type() {
    assert_eq!(DNSRecordKind::MX.hickory_record_type(), RecordType::MX);
}

#[test]
fn test_ns_record_constants() {
    assert_eq!(DNSRecordKind::NS.as_str(), "NSRecord");
    assert_eq!(DNSRecordKind::NS.finalizer(), labels::FINALIZER_NS_RECORD);
    assert_eq!(DNSRecordKind::NS.dns_type(), "NS");
}

#[test]
fn test_ns_record_hickory_type() {
    assert_eq!(DNSRecordKind::NS.hickory_record_type(), RecordType::NS);
}

#[test]
fn test_srv_record_constants() {
    assert_eq!(DNSRecordKind::SRV.as_str(), "SRVRecord");
    assert_eq!(DNSRecordKind::SRV.finalizer(), labels::FINALIZER_SRV_RECORD);
    assert_eq!(DNSRecordKind::SRV.dns_type(), "SRV");
}

#[test]
fn test_srv_record_hickory_type() {
    assert_eq!(DNSRecordKind::SRV.hickory_record_type(), RecordType::SRV);
}

#[test]
fn test_caa_record_constants() {
    assert_eq!(DNSRecordKind::CAA.as_str(), "CAARecord");
    assert_eq!(DNSRecordKind::CAA.finalizer(), labels::FINALIZER_CAA_RECORD);
    assert_eq!(DNSRecordKind::CAA.dns_type(), "CAA");
}

#[test]
fn test_caa_record_hickory_type() {
    assert_eq!(DNSRecordKind::CAA.hickory_record_type(), RecordType::CAA);
}

#[test]
fn test_all_finalizers_unique() {
    // Ensure all finalizers are unique to prevent conflicts
    let finalizers = [
        DNSRecordKind::A.finalizer(),
        DNSRecordKind::AAAA.finalizer(),
        DNSRecordKind::TXT.finalizer(),
        DNSRecordKind::CNAME.finalizer(),
        DNSRecordKind::MX.finalizer(),
        DNSRecordKind::NS.finalizer(),
        DNSRecordKind::SRV.finalizer(),
        DNSRecordKind::CAA.finalizer(),
    ];

    let unique_count = finalizers
        .iter()
        .collect::<std::collections::HashSet<_>>()
        .len();
    assert_eq!(
        unique_count,
        finalizers.len(),
        "All finalizers must be unique"
    );
}

#[test]
fn test_all_kinds_unique() {
    // Ensure all KIND constants are unique
    let kinds = [
        DNSRecordKind::A.as_str(),
        DNSRecordKind::AAAA.as_str(),
        DNSRecordKind::TXT.as_str(),
        DNSRecordKind::CNAME.as_str(),
        DNSRecordKind::MX.as_str(),
        DNSRecordKind::NS.as_str(),
        DNSRecordKind::SRV.as_str(),
        DNSRecordKind::CAA.as_str(),
    ];

    let unique_count = kinds.iter().collect::<std::collections::HashSet<_>>().len();
    assert_eq!(
        unique_count,
        kinds.len(),
        "All KIND constants must be unique"
    );
}

#[test]
fn test_all_record_type_strs_unique() {
    // Ensure all RECORD_TYPE_STR constants are unique
    let record_types = [
        DNSRecordKind::A.dns_type(),
        DNSRecordKind::AAAA.dns_type(),
        DNSRecordKind::TXT.dns_type(),
        DNSRecordKind::CNAME.dns_type(),
        DNSRecordKind::MX.dns_type(),
        DNSRecordKind::NS.dns_type(),
        DNSRecordKind::SRV.dns_type(),
        DNSRecordKind::CAA.dns_type(),
    ];

    let unique_count = record_types
        .iter()
        .collect::<std::collections::HashSet<_>>()
        .len();
    assert_eq!(
        unique_count,
        record_types.len(),
        "All RECORD_TYPE_STR constants must be unique"
    );
}
